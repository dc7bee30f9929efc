//! Process system calls: argument checks and decisions of `prctl`, `kill`,
//! `setpgid`, `rt_sigprocmask`, `rt_sigaction`, `prlimit64`, `waitid`,
//! `umount`, `set_thread_area`.
use crate::errno::{EINVAL, ENOENT, ENOSYS, ESRCH};
use crate::signal::action::{SigAction, SignalAction, action_of_sigaction};
use crate::signal::list::SignalList;
use crate::signal::sigset::{uncatchable, valid_signal, SigSet, Signal};
use crate::vfs::mount::bytes_eq;
use vstd::prelude::*;

verus! {

pub const PR_SET_NAME: u32 = 15;
pub const PR_GET_NAME: u32 = 16;

pub const SIG_BLOCK: u32 = 0;
pub const SIG_UNBLOCK: u32 = 1;
pub const SIG_SETMASK: u32 = 2;

pub const RLIMIT_STACK: u32 = 3;

pub const WNOHANG: u32 = 1;
pub const WUNTRACED: u32 = 2;
pub const WCONTINUED: u32 = 8;

/// The thread name set by `PR_SET_NAME` from the 16 bytes read: up to the
/// first NUL, at most 15 bytes.
pub fn name_from_user(name: [u8; 16]) -> (r: Vec<u8>)
    ensures
        r@.len() <= 15,
        forall|i: int| 0 <= i < r@.len() ==> r@[i] == name@[i] && name@[i] != 0,
        r@.len() < 15 ==> name@[r@.len() as int] == 0,
{
    let mut len: usize = 0;
    while len < 16 && name[len] != 0
        invariant
            len <= 16,
            forall|i: int| 0 <= i < len ==> name@[i] != 0,
        decreases 16 - len,
    {
        len = len + 1;
    }
    let len = if len < 16 {
        len
    } else {
        15
    };
    let mut out: Vec<u8> = Vec::new();
    let mut i: usize = 0;
    while i < len
        invariant
            i <= len <= 15,
            forall|k: int| 0 <= k < len ==> name@[k] != 0,
            out@ == name@.subrange(0, i as int),
        decreases len - i,
    {
        out.push(name[i]);
        i = i + 1;
        assert(out@ =~= name@.subrange(0, i as int));
    }
    out
}

/// The 16 bytes `PR_GET_NAME` stores: the first 15 bytes of the name at
/// most, then zeros.
pub fn name_to_user(name: &Vec<u8>) -> (r: [u8; 16])
    ensures
        forall|i: int|
            0 <= i < 16 ==> r@[i] == if i < name@.len() && i < 15 {
                name@[i]
            } else {
                0u8
            },
{
    let mut out: [u8; 16] = [0; 16];
    let len = if name.len() < 15 {
        name.len()
    } else {
        15
    };
    let mut i: usize = 0;
    while i < 16
        invariant
            i <= 16,
            len <= 15,
            len == if name@.len() < 15 {
                name@.len() as int
            } else {
                15
            },
            forall|k: int|
                0 <= k < i ==> out@[k] == if k < name@.len() && k < 15 {
                    name@[k]
                } else {
                    0u8
                },
        decreases 16 - i,
    {
        if i < len {
            out[i] = name[i];
        } else {
            out[i] = 0;
        }
        i = i + 1;
    }
    out
}

/// The `prctl` option, or `EINVAL` for an unsupported one.
#[derive(Clone, Copy, PartialEq, Eq, Structural, Debug)]
pub enum PrctlOp {
    SetName,
    GetName,
}

pub fn prctl_op(option: u32) -> (r: Result<PrctlOp, u32>)
    ensures
        option == PR_SET_NAME ==> r == Ok::<PrctlOp, u32>(PrctlOp::SetName),
        option == PR_GET_NAME ==> r == Ok::<PrctlOp, u32>(PrctlOp::GetName),
        option != PR_SET_NAME && option != PR_GET_NAME ==> r == Err::<PrctlOp, u32>(EINVAL),
{
    if option == PR_SET_NAME {
        Ok(PrctlOp::SetName)
    } else if option == PR_GET_NAME {
        Ok(PrctlOp::GetName)
    } else {
        Err(EINVAL)
    }
}

/// Who `kill` signals.
#[derive(Clone, Copy, PartialEq, Eq, Structural, Debug)]
pub enum KillTarget {
    /// The caller's process group.
    OwnGroup,
    /// The process with this pid.
    Process(u32),
    /// The process group with this id.
    Group(u32),
}

/// The target of `kill(pid, ..)`: 0 the caller's group, a positive pid
/// that process, below -1 the group `-pid`. Signalling every process
/// (`-1`) is not supported.
pub fn kill_target(pid: i32) -> (r: KillTarget)
    requires
        pid != -1,
        pid != i32::MIN,
    ensures
        pid == 0 ==> r == KillTarget::OwnGroup,
        pid > 0 ==> r == KillTarget::Process(pid as u32),
        pid < -1 ==> r == KillTarget::Group((-pid) as u32),
{
    if pid == 0 {
        KillTarget::OwnGroup
    } else if pid > 0 {
        KillTarget::Process(pid as u32)
    } else {
        KillTarget::Group((-pid) as u32)
    }
}

/// `tgkill` reaches a thread only if it belongs to thread group `tgid`.
pub fn tgkill_check(thread_pid: u32, tgid: u32) -> (r: Result<(), u32>)
    ensures
        r is Ok <==> thread_pid == tgid,
        r matches Err(e) ==> e == ESRCH,
{
    if thread_pid != tgid {
        Err(ESRCH)
    } else {
        Ok(())
    }
}

/// The process and group of `setpgid(pid, pgid)`: pid 0 is the caller,
/// pgid 0 is the process's own pid, a negative pgid is `EINVAL`.
pub fn setpgid_args(own_pid: u32, pid: u32, pgid: i32) -> (r: Result<(u32, u32), u32>)
    ensures
        pgid < 0 <==> r is Err,
        r matches Err(e) ==> e == EINVAL,
        r matches Ok((p, g)) ==> p == (if pid == 0 {
            own_pid
        } else {
            pid
        }) && g == (if pgid == 0 {
            p
        } else {
            pgid as u32
        }),
{
    let pid = if pid == 0 {
        own_pid
    } else {
        pid
    };
    if pgid == 0 {
        Ok((pid, pid))
    } else if pgid > 0 {
        Ok((pid, pgid as u32))
    } else {
        Err(EINVAL)
    }
}

/// Bytes of a signal set in the user interface.
pub const SIGSET_SIZE: usize = 8;

/// Apply `rt_sigprocmask(how, set)` once the old mask has been handed
/// out: without a set nothing changes; otherwise block, unblock or replace
/// the mask, `EINVAL` for an unknown `how`.
pub fn sigprocmask_apply<W, S>(list: &mut SignalList<W, S>, how: u32, set: Option<SigSet>) -> (r:
    Result<(), u32>)
    requires
        old(list).wf(),
    ensures
        final(list).wf(),
        final(list).pending() == old(list).pending(),
        forall|n: u32| final(list).action(n) == old(list).action(n),
        set is None ==> r is Ok && final(list).mask_bits() == old(list).mask_bits(),
        set matches Some(s) ==> {
            if how == SIG_BLOCK {
                r is Ok && final(list).mask_bits() == old(list).mask_bits() | s@
            } else if how == SIG_UNBLOCK {
                r is Ok && final(list).mask_bits() == old(list).mask_bits() & !s@
            } else if how == SIG_SETMASK {
                r is Ok && final(list).mask_bits() == s@
            } else {
                r == Err::<(), u32>(EINVAL) && final(list).mask_bits() == old(list).mask_bits()
            }
        },
{
    let s = match set {
        Some(s) => s,
        None => return Ok(()),
    };
    if how == SIG_BLOCK {
        list.mask(s);
    } else if how == SIG_UNBLOCK {
        list.unmask(s);
    } else if how == SIG_SETMASK {
        list.set_mask(s);
    } else {
        return Err(EINVAL);
    }
    Ok(())
}

/// Check the arguments of `rt_sigaction`: the signal must exist, the set
/// size must be 8, and `SIGKILL` and `SIGSTOP` cannot be changed; all
/// refusals are `EINVAL`.
pub fn rt_sigaction_check(signum: u32, sigsetsize: usize) -> (r: Result<Signal, u32>)
    ensures
        r is Ok <==> valid_signal(signum) && sigsetsize == SIGSET_SIZE && !uncatchable(signum),
        r matches Ok(s) ==> s@ == signum,
        r matches Err(e) ==> e == EINVAL,
{
    let signal = Signal::try_from_raw(signum)?;
    if sigsetsize != SIGSET_SIZE {
        return Err(EINVAL);
    }
    if signal.is_uncatchable() {
        return Err(EINVAL);
    }
    Ok(signal)
}

/// Install the disposition described by `act` for `signal`; `EINVAL`
/// (and nothing changed) for one that asks for `SA_SIGINFO`.
pub fn rt_sigaction_set<W, S>(list: &mut SignalList<W, S>, signal: Signal, act: SigAction) -> (r:
    Result<(), u32>)
    requires
        old(list).wf(),
        !uncatchable(signal@),
    ensures
        final(list).wf(),
        r is Ok <==> action_of_sigaction(act) is Some,
        r matches Err(e) ==> e == EINVAL,
        r is Ok ==> Some(final(list).action(signal@)) == action_of_sigaction(act),
        forall|n: u32|
            valid_signal(n) && (n != signal@ || r is Err) ==> final(list).action(n) == old(
                list,
            ).action(n),
        final(list).mask_bits() == old(list).mask_bits(),
        final(list).pending() == old(list).pending(),
{
    let action = SignalAction::try_from_sigaction(act)?;
    list.set_action(signal, action)
}

/// A resource limit.
#[derive(Clone, Copy, PartialEq, Eq, Structural, Debug)]
pub struct RLimit {
    pub rlim_cur: u64,
    pub rlim_max: u64,
}

/// The stack limit every process has: 8 MiB.
pub fn stack_rlimit() -> (r: RLimit)
    ensures
        r == (RLimit { rlim_cur: 0x80_0000u64, rlim_max: 0x80_0000u64 }),
{
    RLimit { rlim_cur: 0x80_0000, rlim_max: 0x80_0000 }
}

/// Check `prlimit64`: only the calling process (pid 0) and the stack
/// limit are supported (`ENOSYS` otherwise); a new limit whose soft value
/// exceeds its hard value is `EINVAL`. A valid new limit is accepted and
/// not applied.
pub fn prlimit_check(pid: u32, resource: u32, new_limit: Option<RLimit>) -> (r: Result<(), u32>)
    ensures
        pid != 0 ==> r == Err::<(), u32>(ENOSYS),
        pid == 0 && resource != RLIMIT_STACK ==> r == Err::<(), u32>(ENOSYS),
        pid == 0 && resource == RLIMIT_STACK ==> r == match new_limit {
            Some(l) => if l.rlim_cur > l.rlim_max {
                Err::<(), u32>(EINVAL)
            } else {
                Ok(())
            },
            None => Ok(()),
        },
{
    if pid != 0 {
        return Err(ENOSYS);
    }
    if resource != RLIMIT_STACK {
        return Err(ENOSYS);
    }
    match new_limit {
        Some(l) => {
            if l.rlim_cur > l.rlim_max {
                Err(EINVAL)
            } else {
                Ok(())
            }
        },
        None => Ok(()),
    }
}

/// `getrusage` supports only the calling process (`who` 0).
pub fn getrusage_check(who: u32) -> (r: Result<(), u32>)
    ensures
        r is Ok <==> who == 0,
        r matches Err(e) ==> e == ENOSYS,
{
    if who != 0 {
        Err(ENOSYS)
    } else {
        Ok(())
    }
}

/// The wait options `waitid` understands: no hang, stopped and continued
/// children. Other bits are not supported.
pub fn wait_options(options: u32) -> (r: (bool, bool, bool))
    requires
        options & !(WNOHANG | WUNTRACED | WCONTINUED) == 0,
    ensures
        r == (options & WNOHANG != 0, options & WUNTRACED != 0, options & WCONTINUED != 0),
{
    (options & WNOHANG != 0, options & WUNTRACED != 0, options & WCONTINUED != 0)
}

/// Whether a size argument is the size of the structure it describes;
/// `EINVAL` otherwise.
pub fn check_size(given: usize, expected: usize) -> (r: Result<(), u32>)
    ensures
        r is Ok <==> given == expected,
        r matches Err(e) ==> e == EINVAL,
{
    if given != expected {
        Err(EINVAL)
    } else {
        Ok(())
    }
}

/// `./mnt`: the only source that `umount` knows.
pub open spec fn known_umount_source() -> Seq<u8> {
    seq![46u8, 47u8, 109u8, 110u8, 116u8]
}

/// `umount` of `source`: nothing to do for `./mnt`, `ENOENT` for any other.
pub fn umount(source: &[u8]) -> (r: Result<(), u32>)
    ensures
        r is Ok <==> source@ == known_umount_source(),
        r matches Err(e) ==> e == ENOENT,
{
    let known: [u8; 5] = [46u8, 47u8, 109u8, 110u8, 116u8];
    proof {
        assert(known@ =~= known_umount_source());
    }
    if bytes_eq(source, &known) {
        Ok(())
    } else {
        Err(ENOENT)
    }
}

/// How many bytes at the base of a TLS descriptor `set_thread_area` clears:
/// a read-only, not present descriptor with a base and a limit is
/// zeroed over its limit, counted in 4 KiB pages when `limit_in_pages`;
/// `None` when nothing is cleared.
pub fn tls_clear_len(read_exec_only: bool, present: bool, limit_in_pages: bool, base: u32, limit: u32) -> (r:
    Option<u64>)
    ensures
        r == (if read_exec_only && !present && limit != 0 && base != 0 {
            Some((if limit_in_pages {
                limit * 4096
            } else {
                limit as int
            }) as u64)
        } else {
            None
        }),
{
    if read_exec_only && !present && limit != 0 && base != 0 {
        if limit_in_pages {
            Some(limit as u64 * 4096)
        } else {
            Some(limit as u64)
        }
    } else {
        None
    }
}

} // verus!
