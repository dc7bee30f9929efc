//! The decisions of a user thread's run loop: whether to handle signals or
//! go back to user mode, and what each kind of trap asks for.
use crate::signal::sigset::Signal;
use vstd::prelude::*;

verus! {

/// Why a user thread entered the kernel. Faults of unknown kind and
/// breakpoints are not handled and have no variant.
#[derive(Clone, Copy, PartialEq, Eq, Debug)]
pub enum Trap {
    PageFault { addr: usize, error_code: usize },
    BadAccess,
    InvalidOp,
    Irq,
    Timer { reschedule: bool },
    Syscall { no: usize, args: [usize; 6] },
}

/// What the kernel does about a trap.
#[derive(Clone, Copy, PartialEq, Eq, Debug)]
pub enum TrapAction {
    /// Let the address space handle the fault; a signal it returns is raised.
    HandlePageFault { addr: usize, error_code: usize },
    /// Raise this signal on the thread.
    Raise(Signal),
    /// Run the interrupt handler.
    HandleIrq,
    /// Run the timer handler, then yield the processor when asked.
    HandleTimer { then_yield: bool },
    /// Run system call `no`; its return value goes back to the user, and the
    /// program counter moves past the call instruction by `pc_advance`.
    Syscall { no: usize, args: [usize; 6], pc_advance: usize },
}

/// What a trap asks for: bad accesses raise `SIGSEGV`, invalid
/// instructions `SIGILL`; a system call returns past its 4-byte
/// instruction when the architecture leaves the counter on it.
pub fn trap_action(t: Trap, pc_on_call: bool) -> (r: TrapAction)
    ensures
        t matches Trap::PageFault { addr, error_code } ==> r == (TrapAction::HandlePageFault {
            addr,
            error_code,
        }),
        t is BadAccess ==> (r matches TrapAction::Raise(s) && s@ == 11),
        t is InvalidOp ==> (r matches TrapAction::Raise(s) && s@ == 4),
        t is Irq ==> r == TrapAction::HandleIrq,
        t matches Trap::Timer { reschedule } ==> r == (TrapAction::HandleTimer {
            then_yield: reschedule,
        }),
        t matches Trap::Syscall { no, args } ==> r == (TrapAction::Syscall {
            no,
            args,
            pc_advance: if pc_on_call {
                4
            } else {
                0
            },
        }),
{
    match t {
        Trap::PageFault { addr, error_code } => TrapAction::HandlePageFault { addr, error_code },
        Trap::BadAccess => TrapAction::Raise(Signal::sigsegv()),
        Trap::InvalidOp => TrapAction::Raise(Signal::sigill()),
        Trap::Irq => TrapAction::HandleIrq,
        Trap::Timer { reschedule } => TrapAction::HandleTimer { then_yield: reschedule },
        Trap::Syscall { no, args } => TrapAction::Syscall {
            no,
            args,
            pc_advance: if pc_on_call {
                4
            } else {
                0
            },
        },
    }
}

/// The next thing a thread's run loop does.
#[derive(Clone, Copy, PartialEq, Eq, Debug)]
pub enum RunStep {
    /// Handle the pending signals first.
    HandleSignals,
    /// Return to user mode and wait for the next trap.
    ReturnToUser,
    /// The thread is dead: leave the loop.
    Leave,
}

/// The step before going back to user mode: a dead thread leaves, pending
/// signals are handled (unless already handled in this round), otherwise
/// the thread returns to user mode.
pub fn run_step(dead: bool, has_pending: bool, signals_handled: bool) -> (r: RunStep)
    ensures
        r == (if dead {
            RunStep::Leave
        } else if has_pending && !signals_handled {
            RunStep::HandleSignals
        } else {
            RunStep::ReturnToUser
        }),
{
    if dead {
        RunStep::Leave
    } else if has_pending && !signals_handled {
        RunStep::HandleSignals
    } else {
        RunStep::ReturnToUser
    }
}

} // verus!
