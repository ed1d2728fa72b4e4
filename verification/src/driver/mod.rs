//! Device drivers.

pub mod access_laws;
pub mod ahci;
pub mod ahci_cmd;
pub mod ahci_job;
pub mod block;
pub mod console;
pub mod device_laws;
pub mod dma;
pub mod e1000;
pub mod irq;
pub mod keyboard;
pub mod mmio;
pub mod mouse;
pub mod pci;
pub mod portio;
pub mod timer;
