//! Process id allocation.
use vstd::prelude::*;

verus! {

/// The counter that hands out process and thread ids, from 1 upwards.
pub struct PidAllocator {
    next: u32,
}

impl PidAllocator {
    pub closed spec fn spec_next(&self) -> u32 {
        self.next
    }

    /// A counter whose first id is 1.
    pub fn new() -> (r: PidAllocator)
        ensures
            r.spec_next() == 1,
    {
        PidAllocator { next: 1 }
    }
}

/// Hand out the next id; the counter wraps around at `u32::MAX`.
pub fn alloc_pid(counter: &mut PidAllocator) -> (r: u32)
    ensures
        r == old(counter).spec_next(),
        final(counter).spec_next() == if old(counter).spec_next() == u32::MAX {
            0
        } else {
            (old(counter).spec_next() + 1) as u32
        },
{
    let r = counter.next;
    counter.next = if counter.next == u32::MAX {
        0
    } else {
        counter.next + 1
    };
    r
}

} // verus!
