//! Signal dispositions and the per-process disposition table.
use crate::errno::EINVAL;
use crate::signal::sigset::{uncatchable, valid_signal, SigSet, Signal, SIGNAL_MAX};
use vstd::prelude::*;

verus! {

/// `sa_handler` value of the default disposition.
pub const SIG_DFL: usize = 0;

/// `sa_handler` value of the ignore disposition.
pub const SIG_IGN: usize = 1;

/// `sa_flags` bit: the handler takes a `siginfo_t`.
pub const SA_SIGINFO: usize = 4;

/// `sa_flags` bit: `sa_restorer` holds the return trampoline.
pub const SA_RESTORER: usize = 0x0400_0000;

/// What a thread does when a signal arrives.
#[derive(Clone, Copy, PartialEq, Eq, Structural, Debug)]
pub enum SignalAction {
    Default,
    Ignore,
    SimpleHandler { handler: usize, restorer: Option<usize>, mask: SigSet },
}

/// The user-space `struct sigaction`.
#[derive(Clone, Copy, PartialEq, Eq, Structural, Debug)]
pub struct SigAction {
    pub handler: usize,
    pub flags: usize,
    pub restorer: usize,
    pub mask: u64,
}

/// The disposition that a user `struct sigaction` describes, or `None` when
/// it asks for a `siginfo_t` handler, which is not supported.
pub open spec fn action_of_sigaction(sa: SigAction) -> Option<SignalAction> {
    if sa.handler == SIG_DFL {
        Some(SignalAction::Default)
    } else if sa.handler == SIG_IGN {
        Some(SignalAction::Ignore)
    } else if sa.flags & SA_SIGINFO != 0 {
        None
    } else {
        Some(
            SignalAction::SimpleHandler {
                handler: sa.handler,
                restorer: if sa.flags & SA_RESTORER != 0 {
                    Some(sa.restorer)
                } else {
                    None
                },
                mask: SigSet::from_bits(sa.mask),
            },
        )
    }
}

/// The user `struct sigaction` written back for a disposition.
pub open spec fn sigaction_of_action(a: SignalAction) -> SigAction {
    match a {
        SignalAction::Default => SigAction { handler: SIG_DFL, flags: 0, restorer: 0, mask: 0 },
        SignalAction::Ignore => SigAction { handler: SIG_IGN, flags: 0, restorer: 0, mask: 0 },
        SignalAction::SimpleHandler { handler, restorer, mask } => match restorer {
            Some(r) => SigAction { handler, flags: SA_RESTORER, restorer: r, mask: mask@ },
            None => SigAction { handler, flags: 0, restorer: 0, mask: mask@ },
        },
    }
}

impl SignalAction {
    /// Read a user `struct sigaction`. `EINVAL` when it asks for `SA_SIGINFO`.
    pub fn try_from_sigaction(sa: SigAction) -> (r: Result<SignalAction, u32>)
        ensures
            r is Ok <==> action_of_sigaction(sa) is Some,
            r matches Ok(a) ==> action_of_sigaction(sa) == Some(a),
            r matches Err(e) ==> e == EINVAL,
    {
        if sa.handler == SIG_DFL {
            Ok(SignalAction::Default)
        } else if sa.handler == SIG_IGN {
            Ok(SignalAction::Ignore)
        } else if sa.flags & SA_SIGINFO != 0 {
            Err(EINVAL)
        } else {
            let restorer = if sa.flags & SA_RESTORER != 0 {
                Some(sa.restorer)
            } else {
                None
            };
            Ok(SignalAction::SimpleHandler { handler: sa.handler, restorer, mask: SigSet::from_bits(sa.mask) })
        }
    }

    /// The user `struct sigaction` that describes this disposition.
    pub fn to_sigaction(self) -> (r: SigAction)
        ensures
            r == sigaction_of_action(self),
            self is SimpleHandler ==> self->handler > SIG_IGN ==> action_of_sigaction(r) == Some(
                self,
            ),
            !(self is SimpleHandler) ==> action_of_sigaction(r) == Some(self),
    {
        match self {
            SignalAction::Default => SigAction { handler: SIG_DFL, flags: 0, restorer: 0, mask: 0 },
            SignalAction::Ignore => SigAction { handler: SIG_IGN, flags: 0, restorer: 0, mask: 0 },
            SignalAction::SimpleHandler { handler, restorer, mask } => {
                let (flags, r) = match restorer {
                    Some(r) => (SA_RESTORER, r),
                    None => (0, 0),
                };
                let sa = SigAction { handler, flags, restorer: r, mask: mask.bits() };
                assert(SA_RESTORER & SA_SIGINFO == 0) by (bit_vector);
                assert(0usize & SA_SIGINFO == 0) by (bit_vector);
                assert(SA_RESTORER & SA_RESTORER != 0) by (bit_vector);
                assert(0usize & SA_RESTORER == 0) by (bit_vector);
                proof {
                    SigSet::lemma_from_bits_view(mask@);
                    SigSet::lemma_view_injective(mask, SigSet::spec_from_bits(mask@));
                }
                sa
            },
        }
    }
}

/// The disposition table: one disposition per signal number.
pub struct SignalActionList {
    actions: Vec<SignalAction>,
}

impl SignalActionList {
    /// Table length: one slot per signal number and slot 0 unused.
    pub closed spec fn wf(&self) -> bool {
        self.actions@.len() == SIGNAL_MAX + 1
    }

    /// The disposition of signal `n`.
    pub closed spec fn action(&self, n: u32) -> SignalAction {
        self.actions@[n as int]
    }

    /// A table where every signal has its default disposition.
    pub fn new() -> (r: SignalActionList)
        ensures
            r.wf(),
            forall|n: u32| valid_signal(n) ==> r.action(n) == SignalAction::Default,
    {
        let mut actions: Vec<SignalAction> = Vec::new();
        let mut i: u32 = 0;
        while i <= SIGNAL_MAX
            invariant
                i <= SIGNAL_MAX + 1,
                actions@.len() == i,
                forall|k: int| 0 <= k < i ==> actions@[k] == SignalAction::Default,
            decreases SIGNAL_MAX + 1 - i,
        {
            actions.push(SignalAction::Default);
            i = i + 1;
        }
        SignalActionList { actions }
    }

    /// A copy of `other`.
    pub fn new_cloned(other: &SignalActionList) -> (r: SignalActionList)
        requires
            other.wf(),
        ensures
            r.wf(),
            forall|n: u32| valid_signal(n) ==> r.action(n) == other.action(n),
    {
        let mut actions: Vec<SignalAction> = Vec::new();
        let mut i: usize = 0;
        while i < other.actions.len()
            invariant
                other.wf(),
                i <= other.actions@.len(),
                actions@ == other.actions@.subrange(0, i as int),
            decreases other.actions@.len() - i,
        {
            actions.push(other.actions[i]);
            i = i + 1;
        }
        SignalActionList { actions }
    }

    /// Set the disposition of `signal`.
    pub fn set(&mut self, signal: Signal, action: SignalAction)
        requires
            old(self).wf(),
            !uncatchable(signal@),
        ensures
            final(self).wf(),
            final(self).action(signal@) == action,
            forall|n: u32|
                valid_signal(n) && n != signal@ ==> final(self).action(n) == old(self).action(n),
    {
        let n = signal.into_raw() as usize;
        self.actions.set(n, action);
    }

    /// The disposition of `signal`.
    pub fn get(&self, signal: Signal) -> (r: SignalAction)
        requires
            self.wf(),
        ensures
            r == self.action(signal@),
    {
        let n = signal.into_raw() as usize;
        self.actions[n]
    }

    /// Reset every disposition but `Ignore` to the default one, as `execve` does.
    pub fn remove_non_ignore(&mut self)
        requires
            old(self).wf(),
        ensures
            final(self).wf(),
            forall|n: u32|
                valid_signal(n) ==> final(self).action(n) == (if old(self).action(n)
                    == SignalAction::Ignore {
                    SignalAction::Ignore
                } else {
                    SignalAction::Default
                }),
    {
        let mut i: usize = 0;
        while i < self.actions.len()
            invariant
                self.actions@.len() == old(self).actions@.len(),
                old(self).wf(),
                i <= self.actions@.len(),
                forall|k: int|
                    0 <= k < i ==> self.actions@[k] == (if old(self).actions@[k]
                        == SignalAction::Ignore {
                        SignalAction::Ignore
                    } else {
                        SignalAction::Default
                    }),
                forall|k: int| i <= k < self.actions@.len() ==> self.actions@[k] == old(self).actions@[k],
            decreases self.actions@.len() - i,
        {
            let keep = match self.actions[i] {
                SignalAction::Ignore => true,
                _ => false,
            };
            if !keep {
                self.actions.set(i, SignalAction::Default);
            }
            i = i + 1;
        }
    }
}

} // verus!
