//! Checked pointers into user memory and buffers filled through them.
use crate::errno::{EFAULT, EINVAL};
use crate::mem::page_buffer::FillResult;
use vstd::prelude::*;

verus! {

/// The highest address a user pointer may reach.
pub const USER_MAX_ADDR: u64 = 0x7fff_ffff_ffff;

/// A range of user memory that lies in user space.
#[derive(Clone, Copy, PartialEq, Eq, Structural, Debug)]
pub struct CheckedUserPointer {
    pub ptr: usize,
    pub len: usize,
}

impl CheckedUserPointer {
    /// Check `len` bytes at `ptr`: `EFAULT` for a null pointer or a range
    /// that wraps around or ends above `USER_MAX_ADDR`.
    pub fn new(ptr: usize, len: usize) -> (r: Result<CheckedUserPointer, u32>)
        ensures
            r is Err <==> ptr == 0 || ptr + len > usize::MAX || ptr + len > USER_MAX_ADDR,
            r matches Err(e) ==> e == EFAULT,
            r matches Ok(p) ==> p == (CheckedUserPointer { ptr, len }),
    {
        if ptr == 0 {
            return Err(EFAULT);
        }
        match ptr.checked_add(len) {
            None => Err(EFAULT),
            Some(end) => {
                if end as u64 > USER_MAX_ADDR {
                    Err(EFAULT)
                } else {
                    Ok(CheckedUserPointer { ptr, len })
                }
            },
        }
    }

    /// Whether a copy of `total` bytes to or from the checked range may
    /// start: `EINVAL` when it asks for more bytes than the range holds.
    pub fn check_copy(&self, total: usize) -> (r: Result<(), u32>)
        ensures
            r is Ok <==> total <= self.len,
            r matches Err(e) ==> e == EINVAL,
    {
        if total > self.len {
            Err(EINVAL)
        } else {
            Ok(())
        }
    }

    /// Move past `offset` bytes.
    pub fn forward(&mut self, offset: usize)
        requires
            offset <= old(self).len,
            old(self).ptr + old(self).len <= usize::MAX,
        ensures
            final(self).ptr == old(self).ptr + offset,
            final(self).len == old(self).len - offset,
    {
        self.ptr = self.ptr + offset;
        self.len = self.len - offset;
    }
}

/// A user buffer of `size` bytes of which `cur` are filled.
#[derive(Clone, Copy, PartialEq, Eq, Structural, Debug)]
pub struct UserBuffer {
    pub ptr: CheckedUserPointer,
    pub size: usize,
    pub cur: usize,
}

impl UserBuffer {
    pub open spec fn wf(self) -> bool {
        &&& self.cur <= self.size
        &&& self.ptr.len == self.size - self.cur
        &&& self.ptr.ptr + self.ptr.len <= usize::MAX
    }

    /// A buffer of `size` bytes at `ptr`, checked as `CheckedUserPointer`.
    pub fn new(ptr: usize, size: usize) -> (r: Result<UserBuffer, u32>)
        ensures
            r is Err <==> ptr == 0 || ptr + size > usize::MAX || ptr + size > USER_MAX_ADDR,
            r matches Err(e) ==> e == EFAULT,
            r matches Ok(b) ==> b.wf() && b.size == size && b.cur == 0 && b.ptr.ptr == ptr,
    {
        let p = CheckedUserPointer::new(ptr, size)?;
        Ok(UserBuffer { ptr: p, size, cur: 0 })
    }

    /// Bytes still free.
    pub fn remaining(&self) -> (r: usize)
        requires
            self.wf(),
        ensures
            r == self.size - self.cur,
    {
        self.size - self.cur
    }

    /// Where the next `data_len` bytes go: as many as fit, none when full.
    pub fn fill_request(&self, data_len: usize) -> (r: Option<(usize, usize)>)
        requires
            self.wf(),
        ensures
            ({
                let n = if data_len < self.size - self.cur {
                    data_len
                } else {
                    (self.size - self.cur) as usize
                };
                if n == 0 {
                    r is None
                } else {
                    r == Some((self.ptr.ptr, n))
                }
            }),
    {
        let room = self.remaining();
        let n = if data_len < room {
            data_len
        } else {
            room
        };
        if n == 0 {
            None
        } else {
            Some((self.ptr.ptr, n))
        }
    }

    /// Record that `written` of `data_len` bytes were copied.
    pub fn filled(&mut self, written: usize, data_len: usize) -> (r: FillResult)
        requires
            old(self).wf(),
            0 < written <= old(self).size - old(self).cur,
            written <= data_len,
        ensures
            final(self).wf(),
            final(self).cur == old(self).cur + written,
            final(self).size == old(self).size,
            final(self).ptr.ptr == old(self).ptr.ptr + written,
            r == if written == data_len {
                FillResult::Done(written)
            } else {
                FillResult::Partial(written)
            },
    {
        self.ptr.forward(written);
        self.cur = self.cur + written;
        if written == data_len {
            FillResult::Done(written)
        } else {
            FillResult::Partial(written)
        }
    }
}

} // verus!
