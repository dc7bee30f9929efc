//! POSIX error numbers used by the kernel.
use vstd::prelude::*;

verus! {

pub const EPERM: u32 = 1;
pub const ENOENT: u32 = 2;
pub const ESRCH: u32 = 3;
pub const EINTR: u32 = 4;
pub const EIO: u32 = 5;
pub const ENOEXEC: u32 = 8;
pub const EBADF: u32 = 9;
pub const ECHILD: u32 = 10;
pub const ENOMEM: u32 = 12;
pub const EFAULT: u32 = 14;
pub const EEXIST: u32 = 17;
pub const ENODEV: u32 = 19;
pub const ENOTDIR: u32 = 20;
pub const EISDIR: u32 = 21;
pub const EINVAL: u32 = 22;
pub const ENOTTY: u32 = 25;
pub const ERANGE: u32 = 34;
pub const ENOSYS: u32 = 38;
pub const ELOOP: u32 = 40;
pub const EADDRINUSE: u32 = 98;

} // verus!
