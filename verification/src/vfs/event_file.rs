//! Event counters that can be opened as files.
use vstd::prelude::*;

verus! {

/// An event counter and whether reading it blocks.
pub struct EventFile {
    pub count: u64,
    non_block: bool,
}

impl EventFile {
    pub closed spec fn spec_count(&self) -> u64 {
        self.count
    }

    pub closed spec fn spec_non_block(&self) -> bool {
        self.non_block
    }

    /// A counter starting at `init_val`.
    pub fn new(init_val: u64, non_block: bool) -> (r: EventFile)
        ensures
            r.spec_count() == init_val,
            r.spec_non_block() == non_block,
    {
        EventFile { count: init_val, non_block }
    }

    /// Whether reading does not block.
    pub fn non_block(&self) -> (r: bool)
        ensures
            r == self.spec_non_block(),
    {
        self.non_block
    }
}

} // verus!
