//! Verified core logic of the Eonix kernel: memory areas and mappings,
//! syscall argument checking, signal delivery, process groups and sessions,
//! program loading, PCI configuration, the terminal line discipline and
//! the virtual file system bookkeeping.

pub mod block;
pub mod errno;
pub mod loader;
pub mod mem;
pub mod net;
pub mod pcie;
pub mod rtc;
pub mod signal;
pub mod sync;
pub mod syscall;
pub mod task;
pub mod terminal;
pub mod vfs;
