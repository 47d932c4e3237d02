pub mod device;
pub mod device_laws;
pub mod display;
pub mod features;
pub mod protocol;
pub mod renderer;
pub mod resource;
pub mod transport;
pub mod venus;
