pub mod memory;
pub mod pci;
pub mod pci_config_builder;
pub mod pci_config_space;
pub mod pci_transport;

pub use pci_config_space::PciConfigSpace;
