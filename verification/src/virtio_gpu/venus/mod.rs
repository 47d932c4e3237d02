pub mod dispatcher;
pub mod fences;
pub mod laws;
pub mod runtime;
pub mod state;

pub use dispatcher::{VenusDispatchError, VenusResponse};
pub use state::{
    BlobMemory, FencePoint, FenceTracker, VenusContext, VenusResource, VenusState, VenusStateError,
    VENUS_MAX_VERSION,
};
