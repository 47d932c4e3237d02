use rust_virtio_gpu::virtio_gpu::features::GpuFeatures;

#[test]
fn feature_values_match_spec() {
    assert_eq!(GpuFeatures::VIRGL().bits(), 1 << 0);
    assert_eq!(GpuFeatures::EDID().bits(), 1 << 1);
    assert_eq!(GpuFeatures::RESOURCE_UUID().bits(), 1 << 2);
    assert_eq!(GpuFeatures::RESOURCE_BLOB().bits(), 1 << 3);
    assert_eq!(GpuFeatures::CONTEXT_INIT().bits(), 1 << 4);
    assert_eq!(GpuFeatures::BLOB_ALIGNMENT().bits(), 1 << 5);
    assert_eq!(GpuFeatures::VERSION_1().bits(), 1u64 << 32);
    assert_eq!(GpuFeatures::RING_RESET().bits(), 1u64 << 40);
}

#[test]
fn features_context_init_requires_virgl() {
    assert!(!GpuFeatures::CONTEXT_INIT().is_valid());
    assert!((GpuFeatures::VIRGL() | GpuFeatures::CONTEXT_INIT()).is_valid());
}

#[test]
fn blob_alignment_requires_blob_resources() {
    assert!(!GpuFeatures::BLOB_ALIGNMENT().is_valid());
    assert!((GpuFeatures::RESOURCE_BLOB() | GpuFeatures::BLOB_ALIGNMENT()).is_valid());
}

#[test]
fn feature_negotiation_is_intersection() {
    let offered = GpuFeatures::VIRGL() | GpuFeatures::RESOURCE_BLOB() | GpuFeatures::VERSION_1();
    let requested = GpuFeatures::VIRGL()
        | GpuFeatures::EDID()
        | GpuFeatures::RESOURCE_BLOB()
        | GpuFeatures::VERSION_1();
    assert_eq!(
        requested.supported_subset(offered),
        GpuFeatures::VIRGL() | GpuFeatures::RESOURCE_BLOB() | GpuFeatures::VERSION_1()
    );
}

#[test]
fn ring_reset_is_independently_negotiable() {
    let offered = GpuFeatures::VERSION_1() | GpuFeatures::RING_RESET();
    let requested = GpuFeatures::VERSION_1();
    assert!(!requested.contains(GpuFeatures::RING_RESET()));
    assert!(offered.contains(GpuFeatures::RING_RESET()));
}

#[test]
fn unknown_bits_are_refused_or_dropped() {
    assert!(GpuFeatures::from_bits(1u64 << 63).is_none());
    assert_eq!(GpuFeatures::from_bits(0x3).unwrap().bits(), 0x3);
    assert_eq!(GpuFeatures::from_bits_truncate((1u64 << 63) | 0x1).bits(), 0x1);
    assert_eq!(GpuFeatures::all().bits(), 0x3f | (1u64 << 32) | (1u64 << 40));
}

#[test]
fn negotiated_subset_is_common_to_both_sides() {
    let a = GpuFeatures::VIRGL() | GpuFeatures::EDID();
    let b = GpuFeatures::EDID() | GpuFeatures::RESOURCE_BLOB();
    let common = a.supported_subset(b);
    assert_eq!(common.bits(), 0x2);
    assert!(a.contains(common));
    assert!(b.contains(common));
    assert_eq!((a & b).bits(), common.bits());
}
