//! Blocks of kernel-accessible memory.
use vstd::prelude::*;

verus! {

/// A block of memory starting at a non-zero address.
pub struct MemoryBlock {
    addr: usize,
    len: usize,
}

impl MemoryBlock {
    #[verifier::type_invariant]
    spec fn inv(self) -> bool {
        self.addr != 0
    }

    pub closed spec fn spec_addr(&self) -> usize {
        self.addr
    }

    pub closed spec fn spec_len(&self) -> usize {
        self.len
    }

    /// A block of `len` bytes at the non-zero address `addr`.
    pub fn new(addr: usize, len: usize) -> (r: MemoryBlock)
        requires
            addr != 0,
        ensures
            r.spec_addr() == addr,
            r.spec_len() == len,
    {
        MemoryBlock { addr, len }
    }

    /// Where the block starts; never zero.
    pub fn addr(&self) -> (r: usize)
        ensures
            r == self.spec_addr(),
            r != 0,
    {
        proof {
            use_type_invariant(self);
        }
        self.addr
    }

    /// How long the block is.
    pub fn len(&self) -> (r: usize)
        ensures
            r == self.spec_len(),
    {
        self.len
    }

    /// Split the block at offset `at` into the part before and the part
    /// from `at` on.
    pub fn split_at(&self, at: usize) -> (r: (MemoryBlock, MemoryBlock))
        requires
            at <= self.spec_len(),
            self.spec_addr() + at <= usize::MAX,
        ensures
            r.0.spec_addr() == self.spec_addr(),
            r.0.spec_len() == at,
            r.1.spec_addr() == self.spec_addr() + at,
            r.1.spec_len() == self.spec_len() - at,
    {
        proof {
            use_type_invariant(self);
        }
        let lhs = MemoryBlock { addr: self.addr, len: at };
        let rhs = MemoryBlock { addr: self.addr + at, len: self.len - at };
        (lhs, rhs)
    }

    /// Whether the start is aligned for a value of alignment `alignment`.
    pub fn is_aligned_to(&self, alignment: usize) -> (r: bool)
        requires
            alignment > 0,
        ensures
            r == (self.spec_addr() % alignment == 0),
    {
        self.addr % alignment == 0
    }
}

/// Things that can be seen as a block of kernel memory.
pub trait AsMemoryBlock {
    fn as_memblk(&self) -> MemoryBlock;
}

} // verus!
