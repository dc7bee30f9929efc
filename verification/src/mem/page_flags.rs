//! Per-page flag word of the raw page array.
use vstd::prelude::*;

verus! {

/// The flag word kept in every raw page descriptor.
pub struct PageFlags {
    bits: u32,
}

impl View for PageFlags {
    type V = u32;

    closed spec fn view(&self) -> u32 {
        self.bits
    }
}

impl PageFlags {
    pub const PRESENT: u32 = 1;
    pub const BUDDY: u32 = 4;
    pub const SLAB: u32 = 8;
    pub const DIRTY: u32 = 16;
    pub const FREE: u32 = 32;
    pub const LOCAL: u32 = 64;

    /// A flag word with the given bits.
    pub fn new(bits: u32) -> (r: Self)
        ensures
            r@ == bits,
    {
        PageFlags { bits }
    }

    /// Whether every bit of `flag` is set.
    pub fn has(&self, flag: u32) -> (r: bool)
        ensures
            r == (self@ & flag == flag),
    {
        (self.bits & flag) == flag
    }

    /// Set the bits of `flag`.
    pub fn set(&mut self, flag: u32)
        ensures
            final(self)@ == old(self)@ | flag,
    {
        self.bits = self.bits | flag;
    }

    /// Clear the bits of `flag`.
    pub fn clear(&mut self, flag: u32)
        ensures
            final(self)@ == old(self)@ & !flag,
    {
        self.bits = self.bits & !flag;
    }
}

} // verus!
