pub mod blob;
pub mod flush;
pub mod capset;
pub mod context;
pub mod resource;
pub mod scanout;
pub mod standard;
pub mod submit;
pub mod transfer;

pub use blob::{MemEntry, ResourceCreateBlob, ResourceMapBlob, ResourceUnmapBlob};
pub use flush::ResourceFlush;
pub use capset::{GetCapset, GetCapsetInfo};
pub use context::{ContextAttachResource, ContextCreate, ContextDestroy, ContextDetachResource};
pub use resource::{ResourceAttachBacking, ResourceCreate2D};
pub use scanout::ResourceSetScanout;
pub use standard::{
    Box3D, CursorPos, GetEdid, MoveCursor, ResourceAssignUuid, ResourceCreate3D,
    ResourceDetachBacking, ResourceUnref, SetScanoutBlob, TransferHost3D, UpdateCursor,
};
pub use submit::{Submit3D, Submit3DCommand};
pub use transfer::ResourceTransferToHost2D;
