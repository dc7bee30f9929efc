//! Devices that move packets for the network stack.
use vstd::prelude::*;

verus! {

/// What a device can fail with.
#[derive(Clone, Copy, PartialEq, Eq, Structural, Debug)]
pub enum NetDevError {
    Unknown,
}

/// A packet device.
pub trait NetDev {
    fn mac_addr(&self) -> [u8; 6];

    fn can_receive(&self) -> bool;

    fn can_send(&self) -> bool;

    fn recv(&mut self) -> Result<Vec<u8>, NetDevError>;

    fn send(&mut self, data: &[u8]) -> Result<(), NetDevError>;
}

} // verus!
