use rust_virtio_gpu::virtio_gpu::renderer::display::bgra_to_rgb;
use rust_virtio_gpu::virtio_gpu::renderer::memory_type::find_memory_type;

#[test]
fn bgra_bytes_become_rgb_pixels() {
    let data = [0x10, 0x20, 0x30, 0xff, 0x01, 0x02, 0x03, 0x00, 0xaa];
    assert_eq!(bgra_to_rgb(&data), vec![0x0030_2010, 0x0003_0201]);
    assert_eq!(bgra_to_rgb(&[1, 2, 3]), Vec::<u32>::new());
}

#[test]
fn memory_type_is_the_first_allowed_with_the_properties() {
    const DEVICE_LOCAL: u32 = 0x1;
    const HOST_VISIBLE: u32 = 0x2;
    const HOST_COHERENT: u32 = 0x4;
    let flags = [DEVICE_LOCAL, HOST_VISIBLE, HOST_VISIBLE | HOST_COHERENT, HOST_VISIBLE | HOST_COHERENT];
    assert_eq!(find_memory_type(0b1111, &flags, HOST_VISIBLE | HOST_COHERENT), Some(2));
    assert_eq!(find_memory_type(0b1011, &flags, HOST_VISIBLE | HOST_COHERENT), Some(3));
    assert_eq!(find_memory_type(0b0011, &flags, HOST_VISIBLE | HOST_COHERENT), None);
    assert_eq!(find_memory_type(0b1111, &flags, 0), Some(0));
    assert_eq!(find_memory_type(0b1111, &[], DEVICE_LOCAL), None);
}
