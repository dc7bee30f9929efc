//! Where the kernel saves the interrupted context on the user stack when it
//! enters a signal handler, and where `sigreturn` reads it back.
use vstd::prelude::*;

verus! {

/// Bytes kept free below the user stack pointer on x86 (the red zone).
pub const X86_RED_ZONE: usize = 128;

/// The largest multiple of 16 not above `x`.
pub open spec fn floor16(x: int) -> int {
    x - x % 16
}

/// How a signal handler is entered.
#[derive(Clone, Copy, PartialEq, Eq, Structural, Debug)]
pub struct HandlerFrame {
    /// Start of the saved trap context, FPU state and old mask.
    pub saved_data_addr: usize,
    /// Where the handler returns to.
    pub return_address: usize,
    /// The handler's entry point.
    pub entry: usize,
    /// The handler's argument: the signal number.
    pub argument: usize,
}

/// Lay out the frame of a handler entered from stack pointer `sp`. The saved
/// data (`saved_size` bytes) goes right below `sp`, below the red zone when
/// `red_zone` is set, aligned down to 16 bytes. The handler returns to
/// `restorer` when the user gave one, else to the kernel's trampoline `vdso`.
pub fn handler_frame(
    sp: usize,
    saved_size: usize,
    red_zone: bool,
    handler: usize,
    restorer: Option<usize>,
    vdso: usize,
    signal: u32,
) -> (r: HandlerFrame)
    requires
        sp >= saved_size + (if red_zone {
            X86_RED_ZONE
        } else {
            0
        }),
    ensures
        r.saved_data_addr == floor16(
            sp - saved_size - (if red_zone {
                X86_RED_ZONE
            } else {
                0
            }),
        ),
        r.saved_data_addr % 16 == 0,
        r.saved_data_addr + saved_size <= sp,
        r.return_address == (match restorer {
            Some(a) => a,
            None => vdso,
        }),
        r.entry == handler,
        r.argument == signal,
{
    let below = if red_zone {
        sp - X86_RED_ZONE - saved_size
    } else {
        sp - saved_size
    };
    let saved_data_addr = below - below % 16;
    let return_address = match restorer {
        Some(a) => a,
        None => vdso,
    };
    HandlerFrame { saved_data_addr, return_address, entry: handler, argument: signal as usize }
}

/// Where `sigreturn` finds the saved data.
#[derive(Clone, Copy, PartialEq, Eq, Structural, Debug)]
pub struct SavedLayout {
    pub trap_ctx: usize,
    pub fpu_state: usize,
    pub mask: usize,
}

/// The saved data read back by `sigreturn` from stack pointer `sp`. On x86
/// it starts 16 bytes above `sp`, and the old `sigreturn` has popped one
/// more `long` (`long_size` bytes) that is added back. Elsewhere it starts
/// at `sp`. The trap context, the FPU state and the mask follow each other.
pub fn restore_layout(
    sp: usize,
    x86: bool,
    old_sigreturn: bool,
    long_size: usize,
    trap_size: usize,
    fpu_size: usize,
) -> (r: SavedLayout)
    requires
        sp + 16 + trap_size + fpu_size <= usize::MAX,
        long_size <= 16,
        old_sigreturn ==> x86,
    ensures
        r.trap_ctx == (if x86 {
            if old_sigreturn {
                sp + 16 - long_size
            } else {
                sp + 16
            }
        } else {
            sp as int
        }),
        r.fpu_state == r.trap_ctx + trap_size,
        r.mask == r.fpu_state + fpu_size,
{
    let base = if x86 {
        if old_sigreturn {
            sp + 16 - long_size
        } else {
            sp + 16
        }
    } else {
        sp
    };
    let fpu_state = base + trap_size;
    SavedLayout { trap_ctx: base, fpu_state, mask: fpu_state + fpu_size }
}

} // verus!
