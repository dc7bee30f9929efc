//! The arguments of `clone`, `fork` and `vfork`.
use crate::signal::sigset::{valid_signal, Signal};
use vstd::prelude::*;

verus! {

pub const CLONE_VM: usize = 0x00000100;
pub const CLONE_FS: usize = 0x00000200;
pub const CLONE_FILES: usize = 0x00000400;
pub const CLONE_SIGHAND: usize = 0x00000800;
pub const CLONE_VFORK: usize = 0x00004000;
pub const CLONE_THREAD: usize = 0x00010000;
pub const CLONE_SETTLS: usize = 0x00080000;
pub const CLONE_PARENT_SETTID: usize = 0x00100000;
pub const CLONE_CHILD_CLEARTID: usize = 0x00200000;
pub const CLONE_CHILD_SETTID: usize = 0x01000000;

/// The flag bits `clone` knows: bits 8 to 31.
pub const CLONE_FLAGS_ALL: usize = 0xffff_ff00;

/// The low byte of the flags: the signal sent to the parent on exit.
pub const CSIGNAL: usize = 0xff;

/// What a new task shares with its creator and what it is told.
#[derive(Clone, Copy, PartialEq, Eq, Structural, Debug)]
pub struct CloneArgs {
    pub flags: usize,
    /// Stack pointer of the new thread.
    pub sp: Option<usize>,
    /// Signal sent to the parent on exit.
    pub exit_signal: Option<Signal>,
    /// Where to store the child's tid in the child.
    pub set_tid_ptr: Option<usize>,
    /// Where to clear the child's tid when it exits.
    pub clear_tid_ptr: Option<usize>,
    /// Where to store the child's tid in the parent.
    pub parent_tid_ptr: Option<usize>,
    /// The thread-local storage value of the new thread.
    pub tls: Option<usize>,
}

/// `Some(x)` if `cond`.
pub open spec fn when(cond: bool, x: usize) -> Option<usize> {
    if cond {
        Some(x)
    } else {
        None
    }
}

impl CloneArgs {
    /// Decode the arguments of `clone`. The low byte of `flags` is the exit
    /// signal (none for 0, `EINVAL` when not a signal); the other known bits
    /// are the clone flags. The child tid pointer serves both to set and to
    /// clear the tid, as the flags ask.
    pub fn for_clone(flags: usize, sp: usize, child_tid_ptr: usize, parent_tid_ptr: usize, tls: usize) -> (r:
        Result<CloneArgs, u32>)
        ensures
            ({
                let sig = (flags & CSIGNAL) as u32;
                let f = flags & !CSIGNAL & CLONE_FLAGS_ALL;
                if sig != 0 && !valid_signal(sig) {
                    r == Err::<CloneArgs, u32>(crate::errno::EINVAL)
                } else {
                    &&& r matches Ok(a)
                    &&& a.flags == f
                    &&& a.sp == if sp == 0 {
                        None
                    } else {
                        Some(sp)
                    }
                    &&& (a.exit_signal matches Some(s) ==> s@ == sig)
                    &&& (a.exit_signal is None <==> sig == 0)
                    &&& a.set_tid_ptr == when(f & CLONE_CHILD_SETTID != 0, child_tid_ptr)
                    &&& a.clear_tid_ptr == when(f & CLONE_CHILD_CLEARTID != 0, child_tid_ptr)
                    &&& a.parent_tid_ptr == when(f & CLONE_PARENT_SETTID != 0, parent_tid_ptr)
                    &&& a.tls == when(f & CLONE_SETTLS != 0, tls)
                }
            }),
    {
        let f = flags & !CSIGNAL & CLONE_FLAGS_ALL;
        assert(flags & CSIGNAL <= 0xff) by (bit_vector);
        let sig = (flags & CSIGNAL) as u32;
        let exit_signal = if sig != 0 {
            match Signal::try_from_raw(sig) {
                Ok(s) => Some(s),
                Err(e) => return Err(e),
            }
        } else {
            None
        };
        Ok(
            CloneArgs {
                flags: f,
                sp: if sp == 0 {
                    None
                } else {
                    Some(sp)
                },
                exit_signal,
                set_tid_ptr: if f & CLONE_CHILD_SETTID != 0 {
                    Some(child_tid_ptr)
                } else {
                    None
                },
                clear_tid_ptr: if f & CLONE_CHILD_CLEARTID != 0 {
                    Some(child_tid_ptr)
                } else {
                    None
                },
                parent_tid_ptr: if f & CLONE_PARENT_SETTID != 0 {
                    Some(parent_tid_ptr)
                } else {
                    None
                },
                tls: if f & CLONE_SETTLS != 0 {
                    Some(tls)
                } else {
                    None
                },
            },
        )
    }

    /// The arguments of `fork`: nothing shared, `SIGCHLD` on exit.
    pub fn for_fork() -> (r: CloneArgs)
        ensures
            r.flags == 0,
            r.sp is None,
            r.exit_signal matches Some(s) && s@ == 17,
            r.set_tid_ptr is None,
            r.clear_tid_ptr is None,
            r.parent_tid_ptr is None,
            r.tls is None,
    {
        CloneArgs {
            flags: 0,
            sp: None,
            exit_signal: Some(Signal::sigchld()),
            set_tid_ptr: None,
            clear_tid_ptr: None,
            parent_tid_ptr: None,
            tls: None,
        }
    }

    /// The arguments of `vfork`: the address space shared, the parent
    /// suspended until the child execs or exits, `SIGCHLD` on exit.
    pub fn for_vfork() -> (r: CloneArgs)
        ensures
            r.flags == CLONE_VFORK | CLONE_VM,
            r.sp is None,
            r.exit_signal matches Some(s) && s@ == 17,
            r.set_tid_ptr is None,
            r.clear_tid_ptr is None,
            r.parent_tid_ptr is None,
            r.tls is None,
    {
        CloneArgs {
            flags: CLONE_VFORK | CLONE_VM,
            sp: None,
            exit_signal: Some(Signal::sigchld()),
            set_tid_ptr: None,
            clear_tid_ptr: None,
            parent_tid_ptr: None,
            tls: None,
        }
    }

    /// Whether the new task shares `flag`'s resource with its creator.
    pub fn shares(&self, flag: usize) -> (r: bool)
        ensures
            r == (self.flags & flag != 0),
    {
        self.flags & flag != 0
    }
}

} // verus!
