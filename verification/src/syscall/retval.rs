//! How system call arguments are read from registers and how results are
//! returned in them.
use vstd::prelude::*;

verus! {

/// The result of a call that does not return (such as `execve`).
#[derive(Clone, Copy, PartialEq, Eq, Structural, Debug)]
pub struct SyscallNoReturn;

/// A value that a system call returns in a register.
pub trait SyscallRetVal: Sized {
    spec fn spec_retval(self) -> Option<usize>;

    /// The register value, or none when the call does not return.
    fn into_retval(self) -> (r: Option<usize>)
        ensures
            r == self.spec_retval(),
    ;
}

/// The register value of error `e`: its negation.
pub open spec fn error_retval(e: u32) -> usize {
    if e == 0 {
        0
    } else {
        (usize::MAX - e + 1) as usize
    }
}

impl<T: SyscallRetVal> SyscallRetVal for Result<T, u32> {
    open spec fn spec_retval(self) -> Option<usize> {
        match self {
            Ok(v) => v.spec_retval(),
            Err(e) => Some(error_retval(e)),
        }
    }

    fn into_retval(self) -> (r: Option<usize>) {
        match self {
            Ok(v) => v.into_retval(),
            Err(e) => {
                if e == 0 {
                    Some(0)
                } else {
                    Some(usize::MAX - (e as usize) + 1)
                }
            },
        }
    }
}

impl SyscallRetVal for () {
    open spec fn spec_retval(self) -> Option<usize> {
        Some(0)
    }

    fn into_retval(self) -> (r: Option<usize>) {
        Some(0)
    }
}

impl SyscallRetVal for u32 {
    open spec fn spec_retval(self) -> Option<usize> {
        Some(self as usize)
    }

    fn into_retval(self) -> (r: Option<usize>) {
        Some(self as usize)
    }
}

impl SyscallRetVal for i32 {
    open spec fn spec_retval(self) -> Option<usize> {
        Some(self as usize)
    }

    fn into_retval(self) -> (r: Option<usize>) {
        Some(self as usize)
    }
}

impl SyscallRetVal for usize {
    open spec fn spec_retval(self) -> Option<usize> {
        Some(self)
    }

    fn into_retval(self) -> (r: Option<usize>) {
        Some(self)
    }
}

impl SyscallRetVal for isize {
    open spec fn spec_retval(self) -> Option<usize> {
        Some(self as usize)
    }

    fn into_retval(self) -> (r: Option<usize>) {
        Some(self as usize)
    }
}

impl SyscallRetVal for u64 {
    open spec fn spec_retval(self) -> Option<usize> {
        Some(self as usize)
    }

    fn into_retval(self) -> (r: Option<usize>) {
        Some(self as usize)
    }
}

impl SyscallRetVal for SyscallNoReturn {
    open spec fn spec_retval(self) -> Option<usize> {
        None
    }

    fn into_retval(self) -> (r: Option<usize>) {
        None
    }
}

/// A value read from a system call argument register.
pub trait FromSyscallArg: Sized {
    spec fn spec_from_arg(value: usize) -> Self;

    fn from_arg(value: usize) -> (r: Self)
        ensures
            r == Self::spec_from_arg(value),
    ;
}

impl FromSyscallArg for u32 {
    open spec fn spec_from_arg(value: usize) -> u32 {
        value as u32
    }

    fn from_arg(value: usize) -> (r: u32) {
        value as u32
    }
}

impl FromSyscallArg for i32 {
    open spec fn spec_from_arg(value: usize) -> i32 {
        value as i32
    }

    fn from_arg(value: usize) -> (r: i32) {
        value as i32
    }
}

impl FromSyscallArg for usize {
    open spec fn spec_from_arg(value: usize) -> usize {
        value
    }

    fn from_arg(value: usize) -> (r: usize) {
        value
    }
}

impl FromSyscallArg for isize {
    open spec fn spec_from_arg(value: usize) -> isize {
        value as isize
    }

    fn from_arg(value: usize) -> (r: isize) {
        value as isize
    }
}

impl FromSyscallArg for u64 {
    open spec fn spec_from_arg(value: usize) -> u64 {
        value as u64
    }

    fn from_arg(value: usize) -> (r: u64) {
        value as u64
    }
}

/// A pointer into user memory to a `T`, unchecked.
#[derive(Clone, Copy, PartialEq, Eq, Structural, Debug)]
pub struct User {
    pub addr: usize,
}

impl User {
    pub fn with_addr(addr: usize) -> (r: User)
        ensures
            r.addr == addr,
    {
        User { addr }
    }

    pub fn null() -> (r: User)
        ensures
            r.addr == 0,
    {
        User { addr: 0 }
    }

    pub fn is_null(&self) -> (r: bool)
        ensures
            r == (self.addr == 0),
    {
        self.addr == 0
    }

    /// The pointer moved by `off` bytes.
    pub fn offset(self, off: isize) -> (r: User)
        requires
            0 <= self.addr + off <= usize::MAX,
        ensures
            r.addr == self.addr + off,
    {
        if off >= 0 {
            User { addr: self.addr + off as usize }
        } else {
            let back = (-(off + 1)) as usize + 1;
            User { addr: self.addr - back }
        }
    }
}

} // verus!
