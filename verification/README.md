# rust_virtio_gpu

A VirtIO-GPU device model with its Venus (Vulkan over virtio) host state,
written in Verus. The functions of the library carry contracts that Verus
proves, with two exceptions that Verus takes on trust: the contract given to
`String::push` (in `src/waydroid/text.rs`), and `strip_root` (in
`src/waydroid/mod.rs`), which calls `Path::strip_prefix` and states only
what it does with text that does not start at a root and with a plainly
written absolute path.

## Layout

- `src/virtio_gpu/protocol/` — the control-queue wire format: headers,
  requests and responses with their little-endian encodings (each with a
  round-trip lemma), and the validation rules for rectangles, transfers,
  blobs, contexts, fences and rings.
- `src/virtio_gpu/device.rs` — the device: status and feature negotiation,
  queue configuration, 2D resources, backing, scanouts, transfers, flushes,
  EDID and display information, and the processing of a request's bytes
  into a response. Its abstract state is `DeviceModel`; `device_laws.rs`
  holds properties across operations.
- `src/virtio_gpu/transport/` — guest memory, the PCI capability structures,
  the conventional configuration space and its capability chain, the PCI
  transport's registers and shared memory, and access through the
  configuration-access capability.
- `src/virtio_gpu/venus/` — the Venus context/resource/fence state, the
  request dispatcher, and the runtime that decides each request and hands
  the renderer-backend work out as a call (`begin`), finishing the request
  from the backend's reply (`resume`); `fences.rs` keeps guest fence ids
  apart from the backend's.
- `src/virtio_gpu/renderer/` — frame buffers, the software renderer, the
  BGRA-to-RGB conversion of a window and the choice of a Vulkan memory type.
- `src/waydroid/` — the configuration edits of the Waydroid launcher: the
  LXC socket bind, the guest environment of `init.environ.rc` and the
  Android properties, computed on file contents.
- `app/` — the `waydroid-venus` launcher (arguments, files, the vtest
  server process), the minifb and winit windows, the Vulkan objects that
  stand alone, and the virglrenderer backend that performs the runtime's
  calls.
- `tests/` — tests of the library.
