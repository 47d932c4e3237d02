//! Host-side Venus state: contexts, blob resources, their attachments, and
//! the execution-fence counter shared by all rings.

use std::collections::{BTreeMap, BTreeSet};

use crate::virtio_gpu::protocol::commands::{
    BLOB_FLAG_USE_CROSS_DEVICE, BLOB_FLAG_USE_MAPPABLE, BLOB_FLAG_USE_SHAREABLE, BLOB_MEM_GUEST,
    BLOB_MEM_HOST3D, BLOB_MEM_HOST3D_GUEST, CAPSET_VENUS,
};
use vstd::prelude::*;

verus! {

broadcast use vstd::std_specs::btree::group_btree_axioms;

pub const VENUS_MAX_VERSION: u32 = 1;

/// Number of rings a context may use.
pub const MAX_RINGS: u8 = 64;

#[derive(Clone, Copy, Debug, PartialEq, Eq, Structural)]
pub enum VenusStateError {
    InvalidContext,
    ContextAlreadyExists,
    ResourceAlreadyExists,
    InvalidResource,
    ResourceInUse,
    InvalidBlobMemory,
    InvalidBlobFlags,
    InvalidBlobSize,
    InvalidMapOffset,
    AlreadyMapped,
    NotMapped,
    InvalidCommandStream,
    UnsupportedCapability,
    InvalidRing,
}

#[derive(Clone, Copy, Debug, PartialEq, Eq, Structural)]
pub enum BlobMemory {
    Guest,
    Host3d,
    Host3dGuest,
}

/// The blob memory type named by a wire value.
pub open spec fn spec_blob_memory(value: u32) -> Result<BlobMemory, VenusStateError> {
    if value == BLOB_MEM_GUEST {
        Ok(BlobMemory::Guest)
    } else if value == BLOB_MEM_HOST3D {
        Ok(BlobMemory::Host3d)
    } else if value == BLOB_MEM_HOST3D_GUEST {
        Ok(BlobMemory::Host3dGuest)
    } else {
        Err(VenusStateError::InvalidBlobMemory)
    }
}

impl BlobMemory {
    pub fn from_wire(value: u32) -> (r: Result<Self, VenusStateError>)
        ensures
            r == spec_blob_memory(value),
    {
        if value == BLOB_MEM_GUEST {
            Ok(BlobMemory::Guest)
        } else if value == BLOB_MEM_HOST3D {
            Ok(BlobMemory::Host3d)
        } else if value == BLOB_MEM_HOST3D_GUEST {
            Ok(BlobMemory::Host3dGuest)
        } else {
            Err(VenusStateError::InvalidBlobMemory)
        }
    }

    /// Whether guest pages back (part of) the blob.
    pub open spec fn uses_guest_memory(self) -> bool {
        self == BlobMemory::Guest || self == BlobMemory::Host3dGuest
    }
}

/// The abstract value of a blob resource.
pub struct ResourceModel {
    pub id: u32,
    pub blob_id: u64,
    pub size: u64,
    pub memory: BlobMemory,
    pub mappable: bool,
    pub shareable: bool,
    pub cross_device: bool,
    pub guest_backing_size: u64,
    pub mapped_offset: Option<u64>,
    pub uuid: Option<[u8; 16]>,
    pub attached_contexts: Set<u32>,
}

/// The abstract value of a context.
pub struct ContextModel {
    pub id: u32,
    pub capset_id: u32,
    pub debug_name: Seq<u8>,
    pub attached_resources: Set<u32>,
    pub last_submitted_fence: u64,
}

/// The last fence value allocated and the highest value signalled, shared
/// by all rings: fence values are ordered globally.
pub struct FenceModel {
    pub next: u64,
    pub completed: u64,
}

/// The abstract value of the whole Venus state.
pub struct VenusModel {
    pub contexts: Map<u32, ContextModel>,
    pub resources: Map<u32, ResourceModel>,
    pub fences: FenceModel,
    pub capset_version: u32,
    pub capset_size: u32,
}

/// A blob resource: `size` bytes of `memory`, optionally mapped at an offset.
#[derive(Clone, Debug, PartialEq, Eq)]
pub struct VenusResource {
    pub id: u32,
    pub blob_id: u64,
    pub size: u64,
    pub memory: BlobMemory,
    pub mappable: bool,
    pub shareable: bool,
    pub cross_device: bool,
    pub guest_backing_size: u64,
    pub mapped_offset: Option<u64>,
    pub uuid: Option<[u8; 16]>,
    pub attached_contexts: BTreeSet<u32>,
}

impl View for VenusResource {
    type V = ResourceModel;

    open spec fn view(&self) -> ResourceModel {
        ResourceModel {
            id: self.id,
            blob_id: self.blob_id,
            size: self.size,
            memory: self.memory,
            mappable: self.mappable,
            shareable: self.shareable,
            cross_device: self.cross_device,
            guest_backing_size: self.guest_backing_size,
            mapped_offset: self.mapped_offset,
            uuid: self.uuid,
            attached_contexts: self.attached_contexts@,
        }
    }
}

/// The flag bits a blob may carry.
pub open spec fn known_blob_flags() -> u32 {
    BLOB_FLAG_USE_MAPPABLE | BLOB_FLAG_USE_SHAREABLE | BLOB_FLAG_USE_CROSS_DEVICE
}

/// A new blob: non-zero size, known flags, and for guest-backed memory a backing
/// at least as large as the blob.
pub open spec fn spec_new_blob(
    id: u32,
    blob_id: u64,
    size: u64,
    memory: BlobMemory,
    flags: u32,
    guest_backing_size: u64,
) -> Result<ResourceModel, VenusStateError> {
    if size == 0 {
        Err(VenusStateError::InvalidBlobSize)
    } else if flags & !known_blob_flags() != 0 {
        Err(VenusStateError::InvalidBlobFlags)
    } else if memory.uses_guest_memory() && guest_backing_size < size {
        Err(VenusStateError::InvalidBlobSize)
    } else {
        Ok(
            ResourceModel {
                id,
                blob_id,
                size,
                memory,
                mappable: flags & BLOB_FLAG_USE_MAPPABLE != 0,
                shareable: flags & BLOB_FLAG_USE_SHAREABLE != 0,
                cross_device: flags & BLOB_FLAG_USE_CROSS_DEVICE != 0,
                guest_backing_size,
                mapped_offset: None,
                uuid: None,
                attached_contexts: Set::empty(),
            },
        )
    }
}

/// Mapping: only mappable, unmapped blobs, at an offset inside the blob.
pub open spec fn spec_map(r: ResourceModel, offset: u64) -> Result<ResourceModel, VenusStateError> {
    if !r.mappable {
        Err(VenusStateError::InvalidMapOffset)
    } else if r.mapped_offset is Some {
        Err(VenusStateError::AlreadyMapped)
    } else if offset >= r.size {
        Err(VenusStateError::InvalidMapOffset)
    } else {
        Ok(ResourceModel { mapped_offset: Some(offset), ..r })
    }
}

/// Unmapping: only mapped blobs.
pub open spec fn spec_unmap(r: ResourceModel) -> Result<ResourceModel, VenusStateError> {
    if r.mapped_offset is None {
        Err(VenusStateError::NotMapped)
    } else {
        Ok(ResourceModel { mapped_offset: None, ..r })
    }
}

/// A resource receives a UUID once.
pub open spec fn spec_assign_uuid(r: ResourceModel, uuid: [u8; 16]) -> Result<
    ResourceModel,
    VenusStateError,
> {
    if r.uuid is Some {
        Err(VenusStateError::ResourceAlreadyExists)
    } else {
        Ok(ResourceModel { uuid: Some(uuid), ..r })
    }
}

impl VenusResource {
    pub fn new_blob(
        id: u32,
        blob_id: u64,
        size: u64,
        memory: BlobMemory,
        flags: u32,
        guest_backing_size: u64,
    ) -> (r: Result<Self, VenusStateError>)
        ensures
            match spec_new_blob(id, blob_id, size, memory, flags, guest_backing_size) {
                Ok(m) => r matches Ok(res) && res@ == m,
                Err(e) => r == Err::<Self, VenusStateError>(e),
            },
    {
        if size == 0 {
            return Err(VenusStateError::InvalidBlobSize);
        }
        let known_flags = BLOB_FLAG_USE_MAPPABLE | BLOB_FLAG_USE_SHAREABLE
            | BLOB_FLAG_USE_CROSS_DEVICE;
        if flags & !known_flags != 0 {
            return Err(VenusStateError::InvalidBlobFlags);
        }
        match memory {
            BlobMemory::Guest | BlobMemory::Host3dGuest => {
                if guest_backing_size < size {
                    return Err(VenusStateError::InvalidBlobSize);
                }
            },
            _ => {},
        }
        Ok(
            VenusResource {
                id,
                blob_id,
                size,
                memory,
                mappable: flags & BLOB_FLAG_USE_MAPPABLE != 0,
                shareable: flags & BLOB_FLAG_USE_SHAREABLE != 0,
                cross_device: flags & BLOB_FLAG_USE_CROSS_DEVICE != 0,
                guest_backing_size,
                mapped_offset: None,
                uuid: None,
                attached_contexts: BTreeSet::new(),
            },
        )
    }

    /// Maps the blob at `offset` and returns the offset.
    pub fn map(&mut self, offset: u64) -> (r: Result<u64, VenusStateError>)
        ensures
            match spec_map(old(self)@, offset) {
                Ok(m) => r == Ok::<u64, VenusStateError>(offset) && final(self)@ == m,
                Err(e) => r == Err::<u64, VenusStateError>(e) && final(self)@ == old(self)@,
            },
    {
        if !self.mappable {
            return Err(VenusStateError::InvalidMapOffset);
        }
        if self.mapped_offset.is_some() {
            return Err(VenusStateError::AlreadyMapped);
        }
        if offset >= self.size {
            return Err(VenusStateError::InvalidMapOffset);
        }
        self.mapped_offset = Some(offset);
        Ok(offset)
    }

    pub fn unmap(&mut self) -> (r: Result<(), VenusStateError>)
        ensures
            match spec_unmap(old(self)@) {
                Ok(m) => r is Ok && final(self)@ == m,
                Err(e) => r == Err::<(), VenusStateError>(e) && final(self)@ == old(self)@,
            },
    {
        if self.mapped_offset.is_none() {
            return Err(VenusStateError::NotMapped);
        }
        self.mapped_offset = None;
        Ok(())
    }

    pub fn assign_uuid(&mut self, uuid: [u8; 16]) -> (r: Result<(), VenusStateError>)
        ensures
            match spec_assign_uuid(old(self)@, uuid) {
                Ok(m) => r is Ok && final(self)@ == m,
                Err(e) => r == Err::<(), VenusStateError>(e) && final(self)@ == old(self)@,
            },
    {
        if self.uuid.is_some() {
            return Err(VenusStateError::ResourceAlreadyExists);
        }
        self.uuid = Some(uuid);
        Ok(())
    }
}

/// A Venus rendering context.
#[derive(Clone, Debug, PartialEq, Eq)]
pub struct VenusContext {
    pub id: u32,
    pub capset_id: u32,
    pub debug_name: Vec<u8>,
    pub attached_resources: BTreeSet<u32>,
    pub last_submitted_fence: u64,
}

impl View for VenusContext {
    type V = ContextModel;

    open spec fn view(&self) -> ContextModel {
        ContextModel {
            id: self.id,
            capset_id: self.capset_id,
            debug_name: self.debug_name@,
            attached_resources: self.attached_resources@,
            last_submitted_fence: self.last_submitted_fence,
        }
    }
}

/// The first 64 bytes of a context name.
pub open spec fn spec_truncated_name(name: Seq<u8>) -> Seq<u8> {
    if name.len() <= 64 {
        name
    } else {
        name.subrange(0, 64)
    }
}

/// A new context: only the Venus capability set is accepted.
pub open spec fn spec_new_context(id: u32, capset_id: u32, debug_name: Seq<u8>) -> Result<
    ContextModel,
    VenusStateError,
> {
    if capset_id != CAPSET_VENUS {
        Err(VenusStateError::UnsupportedCapability)
    } else {
        Ok(
            ContextModel {
                id,
                capset_id,
                debug_name: spec_truncated_name(debug_name),
                attached_resources: Set::empty(),
                last_submitted_fence: 0,
            },
        )
    }
}

impl VenusContext {
    pub fn new(id: u32, capset_id: u32, debug_name: &[u8]) -> (r: Result<Self, VenusStateError>)
        ensures
            match spec_new_context(id, capset_id, debug_name@) {
                Ok(m) => r matches Ok(c) && c@ == m,
                Err(e) => r == Err::<Self, VenusStateError>(e),
            },
    {
        if capset_id != CAPSET_VENUS {
            return Err(VenusStateError::UnsupportedCapability);
        }
        let n: usize = if debug_name.len() < 64 { debug_name.len() } else { 64 };
        let name = slice_prefix(debug_name, n);
        proof {
            if debug_name@.len() <= 64 {
                assert(debug_name@.subrange(0, n as int) =~= debug_name@);
            }
        }
        Ok(
            VenusContext {
                id,
                capset_id,
                debug_name: name,
                attached_resources: BTreeSet::new(),
                last_submitted_fence: 0,
            },
        )
    }
}

/// The first `n` bytes of `s`, copied.
fn slice_prefix(s: &[u8], n: usize) -> (v: Vec<u8>)
    requires
        n <= s@.len(),
    ensures
        v@ == s@.subrange(0, n as int),
{
    let mut v: Vec<u8> = Vec::new();
    let mut i: usize = 0;
    while i < n
        invariant
            i <= n <= s@.len(),
            v@ == s@.subrange(0, i as int),
        decreases n - i,
    {
        v.push(s[i]);
        i = i + 1;
        assert(v@ =~= s@.subrange(0, i as int));
    }
    v
}

/// A fence value on a ring.
#[derive(Clone, Copy, Debug, PartialEq, Eq, Structural)]
pub struct FencePoint {
    pub ring: u8,
    pub value: u64,
}

/// Allocation: on a valid ring, the value after the last one allocated on
/// any ring, saturating at the maximum.
pub open spec fn spec_allocate(f: FenceModel, ring: u8) -> Result<(FenceModel, FencePoint), VenusStateError> {
    if ring >= MAX_RINGS {
        Err(VenusStateError::InvalidRing)
    } else {
        let value: u64 = if f.next == u64::MAX {
            u64::MAX
        } else {
            (f.next + 1) as u64
        };
        Ok((FenceModel { next: value, ..f }, FencePoint { ring, value }))
    }
}

/// Signalling: for a valid ring, the completed value rises to the signalled value.
pub open spec fn spec_signal(f: FenceModel, point: FencePoint) -> Result<FenceModel, VenusStateError> {
    if point.ring >= MAX_RINGS {
        Err(VenusStateError::InvalidRing)
    } else if point.value > f.completed {
        Ok(FenceModel { completed: point.value, ..f })
    } else {
        Ok(f)
    }
}

/// The execution-fence counter shared by all rings.
#[derive(Clone, Debug, PartialEq, Eq)]
pub struct FenceTracker {
    next: u64,
    completed: u64,
}

impl View for FenceTracker {
    type V = FenceModel;

    closed spec fn view(&self) -> FenceModel {
        FenceModel { next: self.next, completed: self.completed }
    }
}

impl Default for FenceTracker {
    fn default() -> (t: Self)
        ensures
            t@.next == 0,
            t@.completed == 0,
    {
        FenceTracker::new()
    }
}

impl FenceTracker {
    /// A tracker on which nothing has been allocated or signalled.
    pub fn new() -> (t: Self)
        ensures
            t@.next == 0,
            t@.completed == 0,
    {
        FenceTracker { next: 0, completed: 0 }
    }

    /// A fence value for `ring`: greater than every value allocated before,
    /// on any ring, until the counter saturates at the maximum.
    pub fn allocate(&mut self, ring: u8) -> (r: Result<FencePoint, VenusStateError>)
        ensures
            match spec_allocate(old(self)@, ring) {
                Ok((m, p)) => r == Ok::<FencePoint, VenusStateError>(p) && final(self)@ == m,
                Err(e) => r == Err::<FencePoint, VenusStateError>(e) && final(self)@ == old(
                    self,
                )@,
            },
            r matches Ok(p) ==> p.ring == ring && final(self)@.next == p.value && (old(self)@.next < u64::MAX
                ==> p.value > old(self)@.next),
    {
        if ring >= MAX_RINGS {
            return Err(VenusStateError::InvalidRing);
        }
        let value = self.next.saturating_add(1);
        self.next = value;
        Ok(FencePoint { ring, value })
    }

    pub fn signal(&mut self, point: FencePoint) -> (r: Result<(), VenusStateError>)
        ensures
            match spec_signal(old(self)@, point) {
                Ok(m) => r is Ok && final(self)@ == m,
                Err(e) => r == Err::<(), VenusStateError>(e) && final(self)@ == old(self)@,
            },
    {
        if point.ring >= MAX_RINGS {
            return Err(VenusStateError::InvalidRing);
        }
        if point.value > self.completed {
            self.completed = point.value;
        }
        Ok(())
    }

    /// The highest value signalled, on any ring; zero before the first.
    pub fn completed(&self) -> (v: u64)
        ensures
            v == self@.completed,
    {
        self.completed
    }
}


impl VenusModel {
    /// The model with context `id` replaced.
    pub open spec fn with_context(self, id: u32, c: ContextModel) -> VenusModel {
        VenusModel { contexts: self.contexts.insert(id, c), ..self }
    }

    /// The model with resource `id` replaced.
    pub open spec fn with_resource(self, id: u32, r: ResourceModel) -> VenusModel {
        VenusModel { resources: self.resources.insert(id, r), ..self }
    }

    /// A context lists a resource exactly when the resource lists the context.
    pub open spec fn attachments_symmetric(self) -> bool {
        &&& forall|c: u32, r: u32|
            #![trigger self.contexts[c].attached_resources.contains(r)]
            self.contexts.contains_key(c) && self.contexts[c].attached_resources.contains(r)
                ==> self.resources.contains_key(r) && self.resources[r].attached_contexts.contains(c)
        &&& forall|c: u32, r: u32|
            #![trigger self.resources[r].attached_contexts.contains(c)]
            self.resources.contains_key(r) && self.resources[r].attached_contexts.contains(c)
                ==> self.contexts.contains_key(c) && self.contexts[c].attached_resources.contains(r)
    }

    /// The state invariant: keys name their entries, entries are well formed,
    /// attachments are recorded on both sides, and fence counters sit on valid
    /// rings.
    pub open spec fn wf(self) -> bool {
        &&& forall|k: u32| #[trigger]
            self.contexts.contains_key(k) ==> self.contexts[k].id == k
                && self.contexts[k].capset_id == CAPSET_VENUS
                && self.contexts[k].debug_name.len() <= 64
        &&& forall|k: u32| #[trigger]
            self.resources.contains_key(k) ==> self.resources[k].id == k
                && self.resources[k].size > 0
                && (self.resources[k].memory.uses_guest_memory()
                ==> self.resources[k].guest_backing_size >= self.resources[k].size)
                && (self.resources[k].mapped_offset matches Some(o) ==> self.resources[k].mappable
                && o < self.resources[k].size)
        &&& self.attachments_symmetric()
    }
}

/// Context creation: a non-zero, unused id and the Venus capability set.
pub open spec fn spec_create_context(m: VenusModel, id: u32, capset_id: u32, name: Seq<u8>) -> Result<
    VenusModel,
    VenusStateError,
> {
    if id == 0 {
        Err(VenusStateError::InvalidContext)
    } else if m.contexts.contains_key(id) {
        Err(VenusStateError::ContextAlreadyExists)
    } else {
        match spec_new_context(id, capset_id, name) {
            Err(e) => Err(e),
            Ok(c) => Ok(m.with_context(id, c)),
        }
    }
}

/// Context destruction: an existing context with no attached resource.
pub open spec fn spec_destroy_context(m: VenusModel, id: u32) -> Result<VenusModel, VenusStateError> {
    if !m.contexts.contains_key(id) {
        Err(VenusStateError::InvalidContext)
    } else if !m.contexts[id].attached_resources.is_empty() {
        Err(VenusStateError::ResourceInUse)
    } else {
        Ok(VenusModel { contexts: m.contexts.remove(id), ..m })
    }
}

/// Attachment: an existing resource and context record each other.
pub open spec fn spec_attach_resource(m: VenusModel, context_id: u32, resource_id: u32) -> Result<
    VenusModel,
    VenusStateError,
> {
    if !m.resources.contains_key(resource_id) {
        Err(VenusStateError::InvalidResource)
    } else if !m.contexts.contains_key(context_id) {
        Err(VenusStateError::InvalidContext)
    } else {
        let c = m.contexts[context_id];
        let r = m.resources[resource_id];
        Ok(
            m.with_context(
                context_id,
                ContextModel { attached_resources: c.attached_resources.insert(resource_id), ..c },
            ).with_resource(
                resource_id,
                ResourceModel { attached_contexts: r.attached_contexts.insert(context_id), ..r },
            ),
        )
    }
}

/// Detachment: the context must hold the resource; both records are dropped.
pub open spec fn spec_detach_resource(m: VenusModel, context_id: u32, resource_id: u32) -> Result<
    VenusModel,
    VenusStateError,
> {
    if !m.contexts.contains_key(context_id) {
        Err(VenusStateError::InvalidContext)
    } else if !m.contexts[context_id].attached_resources.contains(resource_id) {
        Err(VenusStateError::InvalidResource)
    } else {
        let c = m.contexts[context_id];
        let m1 = m.with_context(
            context_id,
            ContextModel { attached_resources: c.attached_resources.remove(resource_id), ..c },
        );
        if m.resources.contains_key(resource_id) {
            let r = m.resources[resource_id];
            Ok(
                m1.with_resource(
                    resource_id,
                    ResourceModel { attached_contexts: r.attached_contexts.remove(context_id), ..r },
                ),
            )
        } else {
            Ok(m1)
        }
    }
}

/// Blob creation under an unused resource id.
pub open spec fn spec_create_blob(
    m: VenusModel,
    id: u32,
    blob_id: u64,
    size: u64,
    memory: u32,
    flags: u32,
    guest_backing_size: u64,
) -> Result<VenusModel, VenusStateError> {
    if m.resources.contains_key(id) {
        Err(VenusStateError::ResourceAlreadyExists)
    } else {
        match spec_blob_memory(memory) {
            Err(e) => Err(e),
            Ok(mem) => match spec_new_blob(id, blob_id, size, mem, flags, guest_backing_size) {
                Err(e) => Err(e),
                Ok(r) => Ok(m.with_resource(id, r)),
            },
        }
    }
}

/// Release: an existing resource that no context holds.
pub open spec fn spec_unref_resource(m: VenusModel, id: u32) -> Result<VenusModel, VenusStateError> {
    if !m.resources.contains_key(id) {
        Err(VenusStateError::InvalidResource)
    } else if !m.resources[id].attached_contexts.is_empty() {
        Err(VenusStateError::ResourceInUse)
    } else {
        Ok(VenusModel { resources: m.resources.remove(id), ..m })
    }
}

/// Submission of a command stream of `len` bytes: an existing context, a
/// word-aligned stream that fits in 32 bits, and a valid ring, which receives
/// the next fence value; the context remembers it.
pub open spec fn spec_submit(m: VenusModel, context_id: u32, ring: u8, len: int) -> Result<
    (VenusModel, FencePoint),
    VenusStateError,
> {
    if !m.contexts.contains_key(context_id) {
        Err(VenusStateError::InvalidContext)
    } else if len > u32::MAX || len % 4 != 0 {
        Err(VenusStateError::InvalidCommandStream)
    } else {
        match spec_allocate(m.fences, ring) {
            Err(e) => Err(e),
            Ok((f, p)) => {
                let c = m.contexts[context_id];
                Ok(
                    (
                        VenusModel { fences: f, ..m }.with_context(
                            context_id,
                            ContextModel { last_submitted_fence: p.value, ..c },
                        ),
                        p,
                    ),
                )
            },
        }
    }
}

/// The state of the Venus device model.
#[derive(Clone, Debug, PartialEq, Eq)]
pub struct VenusState {
    pub contexts: BTreeMap<u32, VenusContext>,
    pub resources: BTreeMap<u32, VenusResource>,
    pub fences: FenceTracker,
    pub capset_version: u32,
    pub capset_size: u32,
}

impl View for VenusState {
    type V = VenusModel;

    open spec fn view(&self) -> VenusModel {
        VenusModel {
            contexts: self.contexts@.map_values(|c: VenusContext| c@),
            resources: self.resources@.map_values(|r: VenusResource| r@),
            fences: self.fences@,
            capset_version: self.capset_version,
            capset_size: self.capset_size,
        }
    }
}

impl Default for VenusState {
    fn default() -> (s: Self)
        ensures
            s@.contexts == Map::<u32, ContextModel>::empty(),
            s@.resources == Map::<u32, ResourceModel>::empty(),
            s@.fences.next == 0,
            s@.fences.completed == 0,
            s@.capset_version == VENUS_MAX_VERSION,
            s@.capset_size == 0,
    {
        Self::new()
    }
}

impl VenusState {
    pub fn new() -> (s: Self)
        ensures
            s@.contexts == Map::<u32, ContextModel>::empty(),
            s@.resources == Map::<u32, ResourceModel>::empty(),
            s@.fences.next == 0,
            s@.fences.completed == 0,
            s@.capset_version == VENUS_MAX_VERSION,
            s@.capset_size == 0,
            s@.wf(),
    {
        let s = VenusState {
            contexts: BTreeMap::new(),
            resources: BTreeMap::new(),
            fences: FenceTracker::new(),
            capset_version: VENUS_MAX_VERSION,
            capset_size: 0,
        };
        assert(s@.contexts =~= Map::<u32, ContextModel>::empty());
        assert(s@.resources =~= Map::<u32, ResourceModel>::empty());
        s
    }

    pub fn create_context(&mut self, id: u32, capset_id: u32, debug_name: &[u8]) -> (r: Result<
        (),
        VenusStateError,
    >)
        ensures
            match spec_create_context(old(self)@, id, capset_id, debug_name@) {
                Ok(m) => r is Ok && final(self)@ == m,
                Err(e) => r == Err::<(), VenusStateError>(e) && final(self)@ == old(self)@,
            },
    {
        if id == 0 {
            return Err(VenusStateError::InvalidContext);
        }
        if self.contexts.contains_key(&id) {
            return Err(VenusStateError::ContextAlreadyExists);
        }
        let context = VenusContext::new(id, capset_id, debug_name)?;
        let ghost c = context@;
        self.contexts.insert(id, context);
        assert(self@.contexts =~= old(self)@.contexts.insert(id, c));
        Ok(())
    }

    pub fn destroy_context(&mut self, id: u32) -> (r: Result<(), VenusStateError>)
        ensures
            match spec_destroy_context(old(self)@, id) {
                Ok(m) => r is Ok && final(self)@ == m,
                Err(e) => r == Err::<(), VenusStateError>(e) && final(self)@ == old(self)@,
            },
    {
        let empty = match self.contexts.get(&id) {
            None => return Err(VenusStateError::InvalidContext),
            Some(context) => context.attached_resources.is_empty(),
        };
        if !empty {
            return Err(VenusStateError::ResourceInUse);
        }
        self.contexts.remove(&id);
        assert(self@.contexts =~= old(self)@.contexts.remove(id));
        Ok(())
    }

    pub fn attach_resource(&mut self, context_id: u32, resource_id: u32) -> (r: Result<
        (),
        VenusStateError,
    >)
        ensures
            match spec_attach_resource(old(self)@, context_id, resource_id) {
                Ok(m) => r is Ok && final(self)@ == m,
                Err(e) => r == Err::<(), VenusStateError>(e) && final(self)@ == old(self)@,
            },
    {
        if !self.resources.contains_key(&resource_id) {
            return Err(VenusStateError::InvalidResource);
        }
        if !self.contexts.contains_key(&context_id) {
            return Err(VenusStateError::InvalidContext);
        }
        let ghost m = old(self)@;
        let mut context = self.contexts.remove(&context_id).unwrap();
        context.attached_resources.insert(resource_id);
        let ghost c = context@;
        self.contexts.insert(context_id, context);
        let mut resource = self.resources.remove(&resource_id).unwrap();
        resource.attached_contexts.insert(context_id);
        let ghost rm = resource@;
        self.resources.insert(resource_id, resource);
        proof {
            assert(self@.contexts =~= m.contexts.insert(context_id, c));
            assert(self@.resources =~= m.resources.insert(resource_id, rm));
        }
        Ok(())
    }

    pub fn detach_resource(&mut self, context_id: u32, resource_id: u32) -> (r: Result<
        (),
        VenusStateError,
    >)
        ensures
            match spec_detach_resource(old(self)@, context_id, resource_id) {
                Ok(m) => r is Ok && final(self)@ == m,
                Err(e) => r == Err::<(), VenusStateError>(e) && final(self)@ == old(self)@,
            },
    {
        if !self.contexts.contains_key(&context_id) {
            return Err(VenusStateError::InvalidContext);
        }
        let ghost m = old(self)@;
        let mut context = self.contexts.remove(&context_id).unwrap();
        if !context.attached_resources.remove(&resource_id) {
            assert(context.attached_resources@ =~= m.contexts[context_id].attached_resources);
            self.contexts.insert(context_id, context);
            assert(self@.contexts =~= m.contexts);
            return Err(VenusStateError::InvalidResource);
        }
        let ghost c = context@;
        self.contexts.insert(context_id, context);
        assert(self@.contexts =~= m.contexts.insert(context_id, c));
        if self.resources.contains_key(&resource_id) {
            let mut resource = self.resources.remove(&resource_id).unwrap();
            resource.attached_contexts.remove(&context_id);
            let ghost rm = resource@;
            self.resources.insert(resource_id, resource);
            assert(self@.resources =~= m.resources.insert(resource_id, rm));
        }
        Ok(())
    }

    pub fn create_blob(
        &mut self,
        id: u32,
        blob_id: u64,
        size: u64,
        memory: u32,
        flags: u32,
        guest_backing_size: u64,
    ) -> (r: Result<(), VenusStateError>)
        ensures
            match spec_create_blob(
                old(self)@,
                id,
                blob_id,
                size,
                memory,
                flags,
                guest_backing_size,
            ) {
                Ok(m) => r is Ok && final(self)@ == m,
                Err(e) => r == Err::<(), VenusStateError>(e) && final(self)@ == old(self)@,
            },
    {
        if self.resources.contains_key(&id) {
            return Err(VenusStateError::ResourceAlreadyExists);
        }
        let memory = BlobMemory::from_wire(memory)?;
        let resource = VenusResource::new_blob(id, blob_id, size, memory, flags, guest_backing_size)?;
        let ghost rm = resource@;
        self.resources.insert(id, resource);
        assert(self@.resources =~= old(self)@.resources.insert(id, rm));
        Ok(())
    }

    pub fn unref_resource(&mut self, id: u32) -> (r: Result<(), VenusStateError>)
        ensures
            match spec_unref_resource(old(self)@, id) {
                Ok(m) => r is Ok && final(self)@ == m,
                Err(e) => r == Err::<(), VenusStateError>(e) && final(self)@ == old(self)@,
            },
    {
        let empty = match self.resources.get(&id) {
            None => return Err(VenusStateError::InvalidResource),
            Some(resource) => resource.attached_contexts.is_empty(),
        };
        if !empty {
            return Err(VenusStateError::ResourceInUse);
        }
        self.resources.remove(&id);
        assert(self@.resources =~= old(self)@.resources.remove(id));
        Ok(())
    }

    /// Records a submission and returns the fence value it was given.
    pub fn submit(&mut self, context_id: u32, ring: u8, command_stream: &[u8]) -> (r: Result<
        FencePoint,
        VenusStateError,
    >)
        ensures
            match spec_submit(old(self)@, context_id, ring, command_stream@.len() as int) {
                Ok((m, p)) => r == Ok::<FencePoint, VenusStateError>(p) && final(self)@ == m,
                Err(e) => r == Err::<FencePoint, VenusStateError>(e) && final(self)@ == old(
                    self,
                )@,
            },
    {
        if !self.contexts.contains_key(&context_id) {
            return Err(VenusStateError::InvalidContext);
        }
        let len = command_stream.len();
        if len > 0xffff_ffffusize || len % 4 != 0 {
            return Err(VenusStateError::InvalidCommandStream);
        }
        let ghost m = old(self)@;
        let point = self.fences.allocate(ring)?;
        let mut context = self.contexts.remove(&context_id).unwrap();
        context.last_submitted_fence = point.value;
        let ghost c = context@;
        self.contexts.insert(context_id, context);
        assert(self@.contexts =~= m.contexts.insert(context_id, c));
        Ok(point)
    }
}

} // verus!
