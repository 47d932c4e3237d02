//! Protocol-level validation of requests, headers, features and blobs.

use crate::virtio_gpu::features::GpuFeatures;
use crate::virtio_gpu::protocol::commands::{
    BLOB_FLAG_USE_CROSS_DEVICE, BLOB_FLAG_USE_MAPPABLE, BLOB_FLAG_USE_SHAREABLE, BLOB_MEM_GUEST,
    BLOB_MEM_HOST3D, BLOB_MEM_HOST3D_GUEST, CONTEXT_INIT_CAPSET_ID_MASK, FLAG_FENCE,
    FLAG_INFO_RING_IDX,
};
use crate::virtio_gpu::protocol::formats::VirtioGpuFormat;
use crate::virtio_gpu::protocol::header::CtrlHeader;
use crate::virtio_gpu::protocol::responses::Rect;
use vstd::prelude::*;

verus! {

#[derive(Clone, Copy, Debug, PartialEq, Eq, Structural)]
pub enum ValidationError {
    UnknownFormat,
    ZeroDimension,
    RectangleOutOfBounds,
    IntegerOverflow,
    InvalidFeatureCombination,
    InvalidBlobMemory,
    InvalidBlobFlags,
    BlobEntryCountMismatch,
    BlobBackingTooSmall,
    InvalidAlignment,
    InvalidRingIndex,
    RingFlagWithoutContextInit,
    ContextCapabilityMismatch,
    FenceIdRequired,
}

/// A resource of these dimensions: both non-zero, and its 4-byte pixels
/// addressable with 64 bits.
pub open spec fn spec_validate_dimensions(width: u32, height: u32) -> Result<(), ValidationError> {
    if width == 0 || height == 0 {
        Err(ValidationError::ZeroDimension)
    } else if width * height * 4 > u64::MAX {
        Err(ValidationError::IntegerOverflow)
    } else {
        Ok(())
    }
}

/// The rectangle lies inside a resource of valid dimensions.
pub open spec fn spec_validate_rect(
    resource_width: u32,
    resource_height: u32,
    rect: Rect,
) -> Result<(), ValidationError> {
    match spec_validate_dimensions(resource_width, resource_height) {
        Err(e) => Err(e),
        Ok(()) => if rect.x + rect.width > resource_width || rect.y + rect.height
            > resource_height {
            Err(ValidationError::RectangleOutOfBounds)
        } else {
            Ok(())
        },
    }
}

/// The number of bytes a 2D transfer of `rect` moves.
pub open spec fn spec_transfer_bytes(rect: Rect) -> int {
    rect.width * 4 * rect.height
}

/// A 2D transfer: a valid rectangle whose bytes, placed at `offset`, fit in the
/// backing; the result is the number of bytes moved.
pub open spec fn spec_validate_transfer_2d(
    resource_width: u32,
    resource_height: u32,
    rect: Rect,
    offset: u64,
    backing_size: u64,
) -> Result<u64, ValidationError> {
    match spec_validate_rect(resource_width, resource_height, rect) {
        Err(e) => Err(e),
        Ok(()) => if spec_transfer_bytes(rect) > u64::MAX {
            Err(ValidationError::IntegerOverflow)
        } else if offset + spec_transfer_bytes(rect) > u64::MAX {
            Err(ValidationError::IntegerOverflow)
        } else if offset + spec_transfer_bytes(rect) > backing_size {
            Err(ValidationError::BlobBackingTooSmall)
        } else {
            Ok(spec_transfer_bytes(rect) as u64)
        },
    }
}

/// The header rules: ring index below 64, the ring flag only with context
/// initialization, and a non-zero fence id whenever the fence flag is set.
pub open spec fn spec_validate_header(
    header: CtrlHeader,
    context_init_enabled: bool,
) -> Result<(), ValidationError> {
    if header.ring_idx >= 64 {
        Err(ValidationError::InvalidRingIndex)
    } else if header.flags & FLAG_INFO_RING_IDX != 0 && !context_init_enabled {
        Err(ValidationError::RingFlagWithoutContextInit)
    } else if header.flags & FLAG_FENCE != 0 && header.fence_id == 0 {
        Err(ValidationError::FenceIdRequired)
    } else {
        Ok(())
    }
}

/// Whether `a` is a power of two.
pub open spec fn is_power_of_two(a: u64) -> bool {
    a != 0 && a & ((a - 1) as u64) == 0
}

/// The blob rules, checked in order: known memory type, known flags, entry
/// count, non-zero size, alignment, and guest backing large enough when guest
/// memory takes part.
pub open spec fn spec_validate_blob(
    blob_mem: u32,
    blob_flags: u32,
    nr_entries: u32,
    entries_len: usize,
    size: u64,
    alignment: Option<u64>,
    entry_bytes: u64,
) -> Result<(), ValidationError> {
    if blob_mem != BLOB_MEM_GUEST && blob_mem != BLOB_MEM_HOST3D && blob_mem
        != BLOB_MEM_HOST3D_GUEST {
        Err(ValidationError::InvalidBlobMemory)
    } else if blob_flags & !(BLOB_FLAG_USE_MAPPABLE | BLOB_FLAG_USE_SHAREABLE
        | BLOB_FLAG_USE_CROSS_DEVICE) != 0 {
        Err(ValidationError::InvalidBlobFlags)
    } else if nr_entries != entries_len {
        Err(ValidationError::BlobEntryCountMismatch)
    } else if size == 0 {
        Err(ValidationError::BlobBackingTooSmall)
    } else if alignment matches Some(a) && (!is_power_of_two(a) || size % a != 0) {
        Err(ValidationError::InvalidAlignment)
    } else if (blob_mem == BLOB_MEM_GUEST || blob_mem == BLOB_MEM_HOST3D_GUEST) && entry_bytes
        < size {
        Err(ValidationError::BlobBackingTooSmall)
    } else {
        Ok(())
    }
}

pub fn validate_format(value: u32) -> (r: Result<VirtioGpuFormat, ValidationError>)
    ensures
        r == (match VirtioGpuFormat::spec_from_u32(value) {
            Some(f) => Ok(f),
            None => Err(ValidationError::UnknownFormat),
        }),
{
    match VirtioGpuFormat::from_u32(value) {
        Some(f) => Ok(f),
        None => Err(ValidationError::UnknownFormat),
    }
}

pub fn validate_dimensions(width: u32, height: u32) -> (r: Result<(), ValidationError>)
    ensures
        r == spec_validate_dimensions(width, height),
{
    if width == 0 || height == 0 {
        return Err(ValidationError::ZeroDimension);
    }
    proof {
        let w = width as int;
        let h = height as int;
        assert(0 <= w * h <= 0xffff_ffff * 0xffff_ffff) by (nonlinear_arith)
            requires
                0 <= w <= 0xffff_ffff,
                0 <= h <= 0xffff_ffff,
        ;
    }
    let pixels = (width as u64) * (height as u64);
    match pixels.checked_mul(4) {
        Some(_) => Ok(()),
        None => Err(ValidationError::IntegerOverflow),
    }
}

pub fn validate_rect(resource_width: u32, resource_height: u32, rect: Rect) -> (r: Result<
    (),
    ValidationError,
>)
    ensures
        r == spec_validate_rect(resource_width, resource_height, rect),
{
    validate_dimensions(resource_width, resource_height)?;
    let right = (rect.x as u64) + (rect.width as u64);
    let bottom = (rect.y as u64) + (rect.height as u64);
    if right > resource_width as u64 || bottom > resource_height as u64 {
        return Err(ValidationError::RectangleOutOfBounds);
    }
    Ok(())
}

pub fn validate_transfer_2d(
    resource_width: u32,
    resource_height: u32,
    rect: Rect,
    offset: u64,
    backing_size: u64,
) -> (r: Result<u64, ValidationError>)
    ensures
        r == spec_validate_transfer_2d(resource_width, resource_height, rect, offset, backing_size),
{
    validate_rect(resource_width, resource_height, rect)?;
    let row_bytes = (rect.width as u64) * 4;
    let transfer_bytes = match row_bytes.checked_mul(rect.height as u64) {
        Some(t) => t,
        None => return Err(ValidationError::IntegerOverflow),
    };
    let end = match offset.checked_add(transfer_bytes) {
        Some(e) => e,
        None => return Err(ValidationError::IntegerOverflow),
    };
    if end > backing_size {
        return Err(ValidationError::BlobBackingTooSmall);
    }
    Ok(transfer_bytes)
}

pub fn validate_features(features: GpuFeatures) -> (r: Result<(), ValidationError>)
    ensures
        r == (if features.spec_is_valid() {
            Ok(())
        } else {
            Err(ValidationError::InvalidFeatureCombination)
        }),
{
    if !features.is_valid() {
        return Err(ValidationError::InvalidFeatureCombination);
    }
    Ok(())
}

pub fn validate_header(header: CtrlHeader, context_init_enabled: bool) -> (r: Result<
    (),
    ValidationError,
>)
    ensures
        r == spec_validate_header(header, context_init_enabled),
{
    if header.ring_idx >= 64 {
        return Err(ValidationError::InvalidRingIndex);
    }
    if header.flags & FLAG_INFO_RING_IDX != 0 && !context_init_enabled {
        return Err(ValidationError::RingFlagWithoutContextInit);
    }
    if header.flags & FLAG_FENCE != 0 && header.fence_id == 0 {
        return Err(ValidationError::FenceIdRequired);
    }
    Ok(())
}

/// A context may select no capability set, or one of the supported ones.
pub fn validate_context_init(context_init: u32, supported_capsets: &[u32]) -> (r: Result<
    (),
    ValidationError,
>)
    ensures
        r == (if context_init & CONTEXT_INIT_CAPSET_ID_MASK == 0 || supported_capsets@.contains(
            context_init & CONTEXT_INIT_CAPSET_ID_MASK,
        ) {
            Ok(())
        } else {
            Err(ValidationError::ContextCapabilityMismatch)
        }),
{
    let capset_id = context_init & CONTEXT_INIT_CAPSET_ID_MASK;
    if capset_id == 0 {
        return Ok(());
    }
    let n = supported_capsets.len();
    let mut i: usize = 0;
    while i < n
        invariant
            i <= n,
            n == supported_capsets@.len(),
            capset_id == context_init & CONTEXT_INIT_CAPSET_ID_MASK,
            forall|j: int| 0 <= j < i ==> supported_capsets@[j] != capset_id,
        decreases n - i,
    {
        if supported_capsets[i] == capset_id {
            assert(supported_capsets@[i as int] == capset_id);
            assert(supported_capsets@.contains(capset_id));
            return Ok(());
        }
        i = i + 1;
    }
    assert(!supported_capsets@.contains(capset_id));
    Err(ValidationError::ContextCapabilityMismatch)
}

pub fn validate_blob(
    blob_mem: u32,
    blob_flags: u32,
    nr_entries: u32,
    entries_len: usize,
    size: u64,
    alignment: Option<u64>,
    entry_bytes: u64,
) -> (r: Result<(), ValidationError>)
    ensures
        r == spec_validate_blob(
            blob_mem,
            blob_flags,
            nr_entries,
            entries_len,
            size,
            alignment,
            entry_bytes,
        ),
{
    if blob_mem != BLOB_MEM_GUEST && blob_mem != BLOB_MEM_HOST3D && blob_mem
        != BLOB_MEM_HOST3D_GUEST {
        return Err(ValidationError::InvalidBlobMemory);
    }
    let known_flags = BLOB_FLAG_USE_MAPPABLE | BLOB_FLAG_USE_SHAREABLE | BLOB_FLAG_USE_CROSS_DEVICE;
    if blob_flags & !known_flags != 0 {
        return Err(ValidationError::InvalidBlobFlags);
    }
    if nr_entries as usize != entries_len {
        return Err(ValidationError::BlobEntryCountMismatch);
    }
    if size == 0 {
        return Err(ValidationError::BlobBackingTooSmall);
    }
    if let Some(alignment) = alignment {
        if alignment == 0 || alignment & (alignment - 1) != 0 {
            return Err(ValidationError::InvalidAlignment);
        }
        if size % alignment != 0 {
            return Err(ValidationError::InvalidAlignment);
        }
    }
    if (blob_mem == BLOB_MEM_GUEST || blob_mem == BLOB_MEM_HOST3D_GUEST) && entry_bytes < size {
        return Err(ValidationError::BlobBackingTooSmall);
    }
    Ok(())
}

} // verus!
