pub mod commands;
pub mod config;
pub mod formats;
pub mod header;
pub mod requests;
pub mod responses;
pub mod validation;
pub mod wire;

pub use commands::{
    CAPSET_VENUS, CMD_SUBMIT_3D, CMD_TRANSFER_TO_HOST_2D, CONTEXT_INIT_CAPSET_ID_MASK,
};
pub use header::CtrlHeader;
