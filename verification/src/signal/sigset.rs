//! Signal numbers and signal sets.
use crate::errno::EINVAL;
use vstd::prelude::*;

verus! {

/// The largest signal number.
pub const SIGNAL_MAX: u32 = 64;

/// A signal number is valid when it lies in `1..=64`.
pub open spec fn valid_signal(n: u32) -> bool {
    1 <= n <= SIGNAL_MAX
}

/// Signals whose default disposition is to be ignored.
pub open spec fn default_ignored(n: u32) -> bool {
    n == 17 || n == 23 || n == 28
}

/// Signals that can be neither caught nor ignored.
pub open spec fn uncatchable(n: u32) -> bool {
    n == 9 || n == 19
}

/// Signals whose default disposition is to stop the process.
pub open spec fn default_stops(n: u32) -> bool {
    n == 19 || n == 20 || n == 21 || n == 22
}

/// Signals whose default disposition terminates the process with a core dump.
pub open spec fn dumps_core(n: u32) -> bool {
    n == 3 || n == 4 || n == 5 || n == 6 || n == 7 || n == 8 || n == 11 || n == 24 || n == 25
        || n == 31
}

/// The default dispositions do not overlap, and they are the POSIX ones:
/// only `SIGKILL` (9) and `SIGSTOP` (19) cannot be caught; `SIGSTOP`,
/// `SIGTSTP` (20), `SIGTTIN` (21) and `SIGTTOU` (22) stop; `SIGCHLD` (17),
/// `SIGURG` (23) and `SIGWINCH` (28) are dropped; `SIGQUIT` (3), `SIGILL`
/// (4) and `SIGSEGV` (11) dump core; `SIGTERM` (15), `SIGINT` (2) and
/// `SIGCONT` (18) do none of these.
pub proof fn law_default_dispositions(n: u32)
    ensures
        !(default_ignored(n) && default_stops(n)),
        !(default_ignored(n) && dumps_core(n)),
        !(default_stops(n) && dumps_core(n)),
        uncatchable(n) <==> n == 9 || n == 19,
        default_stops(19) && default_stops(20) && default_stops(21) && default_stops(22),
        default_ignored(17) && default_ignored(23) && default_ignored(28),
        dumps_core(3) && dumps_core(4) && dumps_core(11),
        forall|m: u32|
            m == 2 || m == 15 || m == 18 ==> !default_ignored(m) && !default_stops(m) && !dumps_core(m)
                && !uncatchable(m),
{
}

/// A signal number in `1..=64`.
#[derive(Clone, Copy, PartialEq, Eq, Structural, Debug)]
pub struct Signal {
    raw: u32,
}

impl View for Signal {
    type V = u32;

    closed spec fn view(&self) -> u32 {
        self.raw
    }
}

impl Signal {
    #[verifier::type_invariant]
    spec fn inv(self) -> bool {
        valid_signal(self.raw)
    }

    /// The signal with number `n`, or `EINVAL` when `n` is no signal number.
    pub fn try_from_raw(n: u32) -> (r: Result<Signal, u32>)
        ensures
            r is Ok <==> valid_signal(n),
            r matches Ok(s) ==> s@ == n,
            r matches Err(e) ==> e == EINVAL,
    {
        if 1 <= n && n <= SIGNAL_MAX {
            Ok(Signal { raw: n })
        } else {
            Err(EINVAL)
        }
    }

    /// The number of this signal.
    pub fn into_raw(self) -> (r: u32)
        ensures
            r == self@,
            valid_signal(r),
    {
        proof {
            use_type_invariant(self);
        }
        self.raw
    }

    pub fn sighup() -> (r: Signal)
        ensures
            r@ == 1,
    {
        Signal { raw: 1 }
    }

    pub fn sigint() -> (r: Signal)
        ensures
            r@ == 2,
    {
        Signal { raw: 2 }
    }

    pub fn sigquit() -> (r: Signal)
        ensures
            r@ == 3,
    {
        Signal { raw: 3 }
    }

    pub fn sigill() -> (r: Signal)
        ensures
            r@ == 4,
    {
        Signal { raw: 4 }
    }

    pub fn sigkill() -> (r: Signal)
        ensures
            r@ == 9,
    {
        Signal { raw: 9 }
    }

    pub fn sigsegv() -> (r: Signal)
        ensures
            r@ == 11,
    {
        Signal { raw: 11 }
    }

    pub fn sigchld() -> (r: Signal)
        ensures
            r@ == 17,
    {
        Signal { raw: 17 }
    }

    pub fn sigcont() -> (r: Signal)
        ensures
            r@ == 18,
    {
        Signal { raw: 18 }
    }

    pub fn sigstop() -> (r: Signal)
        ensures
            r@ == 19,
    {
        Signal { raw: 19 }
    }

    pub fn sigtstp() -> (r: Signal)
        ensures
            r@ == 20,
    {
        Signal { raw: 20 }
    }

    pub fn sigsys() -> (r: Signal)
        ensures
            r@ == 31,
    {
        Signal { raw: 31 }
    }

    /// Whether the default disposition of this signal is to ignore it.
    pub fn is_default_ignored(self) -> (r: bool)
        ensures
            r == default_ignored(self@),
    {
        self.raw == 17 || self.raw == 23 || self.raw == 28
    }

    /// Whether this signal is `SIGKILL` or `SIGSTOP`.
    pub fn is_uncatchable(self) -> (r: bool)
        ensures
            r == uncatchable(self@),
    {
        self.raw == 9 || self.raw == 19
    }

    /// Whether the default disposition of this signal stops the process.
    pub fn is_stop(self) -> (r: bool)
        ensures
            r == default_stops(self@),
    {
        self.raw == 19 || self.raw == 20 || self.raw == 21 || self.raw == 22
    }

    /// Whether the default disposition of this signal dumps core.
    pub fn is_coredump(self) -> (r: bool)
        ensures
            r == dumps_core(self@),
    {
        let n = self.raw;
        n == 3 || n == 4 || n == 5 || n == 6 || n == 7 || n == 8 || n == 11 || n == 24 || n == 25
            || n == 31
    }
}

/// The bit that stands for signal `n` in a signal set.
pub open spec fn signal_bit(n: u32) -> u64 {
    1u64 << ((n - 1) as u64)
}

/// A set of signals, one bit per signal; signal `n` is bit `n - 1`.
#[derive(Clone, Copy, PartialEq, Eq, Structural, Debug)]
pub struct SigSet {
    bits: u64,
}

impl View for SigSet {
    type V = u64;

    closed spec fn view(&self) -> u64 {
        self.bits
    }
}

impl SigSet {
    /// A set is determined by its bits.
    pub proof fn lemma_view_injective(a: SigSet, b: SigSet)
        ensures
            a@ == b@ <==> a == b,
    {
    }

    /// The bits of a set made from bits.
    pub proof fn lemma_from_bits_view(bits: u64)
        ensures
            SigSet::spec_from_bits(bits)@ == bits,
    {
    }

    /// The empty set.
    pub fn empty() -> (r: SigSet)
        ensures
            r@ == 0,
    {
        SigSet { bits: 0 }
    }

    /// The set with the given bits.
    pub closed spec fn spec_from_bits(bits: u64) -> SigSet {
        SigSet { bits }
    }

    /// The set with the given bits.
    #[verifier::when_used_as_spec(spec_from_bits)]
    pub fn from_bits(bits: u64) -> (r: SigSet)
        ensures
            r@ == bits,
            r == SigSet::spec_from_bits(bits),
    {
        SigSet { bits }
    }

    /// The bits of this set.
    pub fn bits(&self) -> (r: u64)
        ensures
            r == self@,
    {
        self.bits
    }

    /// The set holding exactly `signal`.
    pub fn of(signal: Signal) -> (r: SigSet)
        ensures
            r@ == signal_bit(signal@),
    {
        let n = signal.into_raw();
        SigSet { bits: 1u64 << ((n - 1) as u64) }
    }

    /// Add the signals of `other` to this set.
    pub fn mask(&mut self, other: SigSet)
        ensures
            final(self)@ == old(self)@ | other@,
    {
        self.bits = self.bits | other.bits;
    }

    /// Remove the signals of `other` from this set.
    pub fn unmask(&mut self, other: SigSet)
        ensures
            final(self)@ == old(self)@ & !other@,
    {
        self.bits = self.bits & !other.bits;
    }

    /// Whether `signal` is in this set.
    pub fn contains(&self, signal: Signal) -> (r: bool)
        ensures
            r == (self@ & signal_bit(signal@) != 0),
    {
        let n = signal.into_raw();
        (self.bits & (1u64 << ((n - 1) as u64))) != 0
    }
}

} // verus!
