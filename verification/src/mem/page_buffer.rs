//! A page-sized output buffer filled piece by piece.
use crate::mem::align::PAGE_SIZE;
use vstd::prelude::*;

verus! {

/// The outcome of filling a buffer.
#[derive(Clone, Copy, PartialEq, Eq, Structural, Debug)]
pub enum FillResult {
    /// All of the data was stored (this many bytes).
    Done(usize),
    /// Only this many bytes of the data fit.
    Partial(usize),
    /// The buffer was already full.
    Full,
}

/// A page of memory filled from its start.
pub struct PageBuffer {
    page: Vec<u8>,
    offset: usize,
}

impl PageBuffer {
    pub closed spec fn wf(&self) -> bool {
        self.page@.len() == PAGE_SIZE && self.offset <= PAGE_SIZE
    }

    /// The bytes stored so far.
    pub closed spec fn spec_data(&self) -> Seq<u8> {
        self.page@.subrange(0, self.offset as int)
    }

    /// An empty buffer over a zeroed page.
    pub fn new() -> (r: PageBuffer)
        ensures
            r.wf(),
            r.spec_data() == Seq::<u8>::empty(),
    {
        let mut page: Vec<u8> = Vec::new();
        let mut i: usize = 0;
        while i < PAGE_SIZE
            invariant
                i <= PAGE_SIZE,
                page@.len() == i,
            decreases PAGE_SIZE - i,
        {
            page.push(0);
            i = i + 1;
        }
        let r = PageBuffer { page, offset: 0 };
        assert(r.spec_data() =~= Seq::<u8>::empty());
        r
    }

    /// Capacity of the buffer.
    pub fn total(&self) -> (r: usize)
        requires
            self.wf(),
        ensures
            r == PAGE_SIZE,
    {
        self.page.len()
    }

    /// Bytes stored so far.
    pub fn wrote(&self) -> (r: usize)
        requires
            self.wf(),
        ensures
            r == self.spec_data().len(),
    {
        self.offset
    }

    /// Append as much of `data` as fits.
    pub fn fill(&mut self, data: &[u8]) -> (r: FillResult)
        requires
            old(self).wf(),
        ensures
            final(self).wf(),
            ({
                let room = PAGE_SIZE - old(self).spec_data().len();
                if room == 0 {
                    r == FillResult::Full && final(self).spec_data() == old(self).spec_data()
                } else {
                    let n = if data@.len() < room {
                        data@.len() as int
                    } else {
                        room
                    };
                    &&& final(self).spec_data() == old(self).spec_data() + data@.subrange(0, n)
                    &&& r == if n < data@.len() {
                        FillResult::Partial(n as usize)
                    } else {
                        FillResult::Done(n as usize)
                    }
                }
            }),
    {
        let room = self.page.len() - self.offset;
        if room == 0 {
            return FillResult::Full;
        }
        let len = if data.len() < room {
            data.len()
        } else {
            room
        };
        let ghost before = self.spec_data();
        let mut i: usize = 0;
        while i < len
            invariant
                self.page@.len() == PAGE_SIZE,
                self.offset + len <= PAGE_SIZE,
                len <= data@.len(),
                i <= len,
                before == old(self).page@.subrange(0, self.offset as int),
                self.page@.subrange(0, self.offset as int) == before,
                self.page@.subrange(self.offset as int, self.offset + i) == data@.subrange(0, i as int),
            decreases len - i,
        {
            self.page.set(self.offset + i, data[i]);
            i = i + 1;
            assert(self.page@.subrange(0, self.offset as int) =~= before);
            assert(self.page@.subrange(self.offset as int, self.offset + i) =~= data@.subrange(0, i as int));
        }
        assert(self.page@.subrange(0, self.offset + len) =~= before + data@.subrange(0, len as int));
        self.offset = self.offset + len;
        if len < data.len() {
            FillResult::Partial(len)
        } else {
            FillResult::Done(len)
        }
    }

    /// The bytes stored so far.
    pub fn data(&self) -> (r: Vec<u8>)
        requires
            self.wf(),
        ensures
            r@ == self.spec_data(),
    {
        let mut out: Vec<u8> = Vec::new();
        let mut i: usize = 0;
        while i < self.offset
            invariant
                self.wf(),
                i <= self.offset,
                out@ == self.page@.subrange(0, i as int),
            decreases self.offset - i,
        {
            out.push(self.page[i]);
            i = i + 1;
            assert(out@ =~= self.page@.subrange(0, i as int));
        }
        out
    }
}

} // verus!
