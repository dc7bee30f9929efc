//! Networking: device registry, the loopback device and port allocation.
pub mod device;
pub mod iface;
pub mod loopback;
pub mod netdev;
pub mod route;
