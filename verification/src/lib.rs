//! Device emulation dispatch core for a type-1 hypervisor.
//!
//! The crate provides a range-keyed dispatcher that routes guest port I/O and
//! memory-mapped I/O to the emulated device responsible for it, the typed
//! request values that carry one I/O transaction between the exit handler and
//! a device model, and a PCI root complex as the reference device model.

pub mod device;
pub mod error;
pub mod memory;
pub mod numfmt;
pub mod pci;
pub mod request;
