//! Virtual addresses and ranges, and where user space ends.
use vstd::prelude::*;

verus! {

/// The first address above user space.
pub const USER_SPACE_MEMORY_TOP: u64 = 0x8000_0000_0000;

/// The first address of kernel space.
pub const KERNEL_SPACE_MEMORY_BOTTOM: u64 = 0xffff_8000_0000_0000;

/// A virtual address.
#[derive(Clone, Copy, PartialEq, Eq, Structural, Debug)]
pub struct VAddr {
    pub addr: usize,
}

/// A range of virtual addresses, `start` included, `end` excluded.
#[derive(Clone, Copy, PartialEq, Eq, Structural, Debug)]
pub struct VRange {
    pub start: usize,
    pub end: usize,
}

/// Address predicates.
pub trait VAddrExt {
    spec fn spec_is_user(&self) -> bool;

    fn is_user(&self) -> (r: bool)
        ensures
            r == self.spec_is_user(),
    ;
}

/// Range predicates.
pub trait VRangeExt {
    spec fn spec_is_user(&self) -> bool;

    spec fn spec_is_kernel(&self) -> bool;

    fn is_kernel(&self) -> (r: bool)
        ensures
            r == self.spec_is_kernel(),
    ;

    fn is_user(&self) -> (r: bool)
        ensures
            r == self.spec_is_user(),
    ;
}

impl VAddrExt for VAddr {
    /// The address lies below the top of user space.
    open spec fn spec_is_user(&self) -> bool {
        (self.addr as u64) < USER_SPACE_MEMORY_TOP
    }

    fn is_user(&self) -> (r: bool) {
        (self.addr as u64) < USER_SPACE_MEMORY_TOP
    }
}

impl VRangeExt for VRange {
    /// The whole range lies below the top of user space.
    open spec fn spec_is_user(&self) -> bool {
        !((self.end as u64) > USER_SPACE_MEMORY_TOP || (self.start as u64) >= USER_SPACE_MEMORY_TOP)
    }

    /// The range starts in kernel space.
    open spec fn spec_is_kernel(&self) -> bool {
        (self.start as u64) >= KERNEL_SPACE_MEMORY_BOTTOM
    }

    fn is_kernel(&self) -> (r: bool) {
        (self.start as u64) >= KERNEL_SPACE_MEMORY_BOTTOM
    }

    fn is_user(&self) -> (r: bool) {
        !((self.end as u64) > USER_SPACE_MEMORY_TOP || (self.start as u64) >= USER_SPACE_MEMORY_TOP)
    }
}

impl VRange {
    /// The range `start..end`.
    pub fn new(start: usize, end: usize) -> (r: VRange)
        requires
            start <= end,
        ensures
            r == (VRange { start, end }),
    {
        VRange { start, end }
    }

    /// The range grown by `count` bytes at its end.
    pub fn grow(&self, count: usize) -> (r: VRange)
        requires
            self.end + count <= usize::MAX,
        ensures
            r == (VRange { start: self.start, end: (self.end + count) as usize }),
    {
        VRange { start: self.start, end: self.end + count }
    }

    /// The range shrunk by `count` bytes at its end.
    pub fn shrink(&self, count: usize) -> (r: VRange)
        requires
            self.end - count >= self.start,
        ensures
            r == (VRange { start: self.start, end: (self.end - count) as usize }),
    {
        VRange { start: self.start, end: self.end - count }
    }
}

} // verus!
