//! PCI configuration space: headers, base address registers and the
//! allocation of memory windows to devices.
pub mod device;
pub mod header;
