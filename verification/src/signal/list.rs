//! The per-thread signal state: blocked mask, pending signals, wakers and
//! dispositions, with the decisions taken when a signal is raised and when
//! pending signals are handled.
use crate::errno::{EFAULT, EINVAL};
use crate::signal::action::{SignalAction, SignalActionList};
use crate::signal::sigset::{
    default_ignored, default_stops, signal_bit, uncatchable, valid_signal, SigSet, Signal,
};
use vstd::multiset::Multiset;
use vstd::prelude::*;

verus! {

broadcast use vstd::seq_lib::group_to_multiset_ensures;

/// Under its default disposition a signal is dropped when raised exactly
/// when it is `SIGCHLD` (17), `SIGURG` (23) or `SIGWINCH` (28): raising one
/// of those leaves nothing pending, and every other signal is queued. An
/// ignored signal is never queued, and one with a handler always is.
pub proof fn law_default_dropped_signals(n: u32, handler: usize, restorer: Option<usize>, mask: SigSet)
    ensures
        raise_queues(SignalAction::Default, n) <==> !(n == 17 || n == 23 || n == 28),
        !raise_queues(SignalAction::Default, 28),
        !raise_queues(SignalAction::Ignore, n),
        raise_queues(SignalAction::SimpleHandler { handler, restorer, mask }, n),
{
}

/// Number of `SIGCONT`.
pub const SIGCONT: u32 = 18;

/// Outcome of raising a signal.
#[derive(Clone, Copy, PartialEq, Eq, Structural, Debug)]
pub enum RaiseResult {
    Finished,
    Masked,
}

/// Whether raising signal `n` under disposition `action` queues it.
pub open spec fn raise_queues(action: SignalAction, n: u32) -> bool {
    !(action is Ignore) && !(default_ignored(n) && action is Default)
}

/// `m` is a least element of `ms`.
pub open spec fn is_least(ms: Multiset<u32>, m: u32) -> bool {
    ms.count(m) > 0 && forall|x: u32| ms.count(x) > 0 ==> m <= x
}

/// What the thread does next about its pending signals.
#[derive(Clone, Copy, PartialEq, Eq, Structural, Debug)]
pub enum HandleStep {
    /// No signal is pending.
    Done,
    /// Run the user handler of `signal`; `old_mask` is restored by `sigreturn`.
    Deliver { signal: Signal, handler: usize, restorer: Option<usize>, old_mask: SigSet },
    /// The signal needs no further work (default-ignored, or `SIGCONT`).
    Nothing { signal: Signal },
    /// Stop the process until `SIGCONT` arrives.
    Stop { signal: Signal },
    /// Terminate the thread.
    Terminate { signal: Signal },
}

/// The default action, after unmasking, for a signal without a handler.
pub open spec fn default_step(signal: Signal) -> HandleStep {
    if default_ignored(signal@) || signal@ == SIGCONT {
        HandleStep::Nothing { signal }
    } else if default_stops(signal@) {
        HandleStep::Stop { signal }
    } else {
        HandleStep::Terminate { signal }
    }
}

/// Signal state of one thread. `W` wakes the thread from an interruptible
/// wait; `S` wakes it from a stop.
pub struct SignalList<W, S> {
    mask: SigSet,
    pending: Vec<u32>,
    signal_waker: Option<W>,
    stop_waker: Option<S>,
    actions: SignalActionList,
}

impl<W, S> SignalList<W, S> {
    pub closed spec fn wf(&self) -> bool {
        &&& self.actions.wf()
        &&& forall|i: int| 0 <= i < self.pending@.len() ==> valid_signal(#[trigger] self.pending@[i])
    }

    /// The blocked signals.
    pub closed spec fn mask_bits(&self) -> u64 {
        self.mask@
    }

    /// The pending signals, with repetitions.
    pub closed spec fn pending(&self) -> Multiset<u32> {
        self.pending@.to_multiset()
    }

    /// The disposition of signal `n`.
    pub closed spec fn action(&self, n: u32) -> SignalAction {
        self.actions.action(n)
    }

    /// The waker that interrupts a wait, if one is registered.
    pub closed spec fn signal_waker(&self) -> Option<W> {
        self.signal_waker
    }

    /// The waker that ends a stop, if one is registered.
    pub closed spec fn stop_waker(&self) -> Option<S> {
        self.stop_waker
    }

    /// A fresh state: nothing blocked, nothing pending, default dispositions.
    pub fn new() -> (r: Self)
        ensures
            r.wf(),
            r.mask_bits() == 0,
            r.pending() =~= Multiset::<u32>::empty(),
            r.signal_waker() is None,
            r.stop_waker() is None,
            forall|n: u32| valid_signal(n) ==> r.action(n) == SignalAction::Default,
    {
        let pending: Vec<u32> = Vec::new();
        proof {
            assert(pending@.to_multiset().len() == 0);
        }
        SignalList {
            mask: SigSet::empty(),
            pending,
            signal_waker: None,
            stop_waker: None,
            actions: SignalActionList::new(),
        }
    }

    /// The state of a new thread forked from `other`: the same mask and
    /// dispositions, nothing pending, no wakers.
    pub fn new_cloned(other: &Self) -> (r: Self)
        requires
            other.wf(),
            other.stop_waker() is None,
        ensures
            r.wf(),
            r.mask_bits() == other.mask_bits(),
            r.pending() =~= Multiset::<u32>::empty(),
            r.signal_waker() is None,
            r.stop_waker() is None,
            forall|n: u32| valid_signal(n) ==> r.action(n) == other.action(n),
    {
        let pending: Vec<u32> = Vec::new();
        proof {
            assert(pending@.to_multiset().len() == 0);
        }
        SignalList {
            mask: other.mask,
            pending,
            signal_waker: None,
            stop_waker: None,
            actions: SignalActionList::new_cloned(&other.actions),
        }
    }

    pub fn get_mask(&self) -> (r: SigSet)
        ensures
            r@ == self.mask_bits(),
    {
        self.mask
    }

    /// The decision of a signal return once the saved trap context is read
    /// back: a context that is not in user mode or has interrupts disabled
    /// is refused with `EFAULT` and nothing here changes (the caller keeps
    /// its FPU state too); otherwise the saved mask `saved_mask` becomes
    /// the mask, and the caller takes the saved FPU state.
    pub fn restore(&mut self, user_mode: bool, interrupts_enabled: bool, saved_mask: SigSet) -> (r: Result<
        (),
        u32,
    >)
        ensures
            user_mode && interrupts_enabled ==> r is Ok && final(self).mask_bits() == saved_mask@
                && final(self).pending() == old(self).pending() && final(self).wf() == old(self).wf()
                && final(self).signal_waker() == old(self).signal_waker() && final(self).stop_waker()
                == old(self).stop_waker() && forall|n: u32| final(self).action(n) == old(self).action(n),
            !(user_mode && interrupts_enabled) ==> r == Err::<(), u32>(EFAULT) && *final(self) == *old(
                self,
            ),
    {
        if !user_mode || !interrupts_enabled {
            return Err(EFAULT);
        }
        self.mask = saved_mask;
        Ok(())
    }

    pub fn set_mask(&mut self, mask: SigSet)
        ensures
            final(self).mask_bits() == mask@,
            final(self).pending() == old(self).pending(),
            final(self).wf() == old(self).wf(),
            forall|n: u32| final(self).action(n) == old(self).action(n),
    {
        self.mask = mask;
    }

    /// Block the signals of `mask` as well.
    pub fn mask(&mut self, mask: SigSet)
        ensures
            final(self).mask_bits() == old(self).mask_bits() | mask@,
            final(self).pending() == old(self).pending(),
            final(self).wf() == old(self).wf(),
            forall|n: u32| final(self).action(n) == old(self).action(n),
    {
        self.mask.mask(mask);
    }

    /// Stop blocking the signals of `mask`.
    pub fn unmask(&mut self, mask: SigSet)
        ensures
            final(self).mask_bits() == old(self).mask_bits() & !mask@,
            final(self).pending() == old(self).pending(),
            final(self).wf() == old(self).wf(),
            forall|n: u32| final(self).action(n) == old(self).action(n),
    {
        self.mask.unmask(mask);
    }

    /// Set the disposition of `signal`; `SIGKILL` and `SIGSTOP` are refused
    /// with `EINVAL`.
    pub fn set_action(&mut self, signal: Signal, action: SignalAction) -> (r: Result<(), u32>)
        requires
            old(self).wf(),
        ensures
            final(self).wf(),
            r is Err <==> uncatchable(signal@),
            r matches Err(e) ==> e == EINVAL,
            r is Ok ==> final(self).action(signal@) == action,
            forall|n: u32|
                valid_signal(n) && (n != signal@ || r is Err) ==> final(self).action(n) == old(
                    self,
                ).action(n),
            final(self).mask_bits() == old(self).mask_bits(),
            final(self).pending() == old(self).pending(),
    {
        if signal.is_uncatchable() {
            return Err(EINVAL);
        }
        self.actions.set(signal, action);
        Ok(())
    }

    /// The disposition of `signal`.
    pub fn get_action(&self, signal: Signal) -> (r: SignalAction)
        requires
            self.wf(),
        ensures
            r == self.action(signal@),
    {
        self.actions.get(signal)
    }

    /// Register or clear the waker that interrupts a wait.
    pub fn set_signal_waker(&mut self, waker: Option<W>)
        ensures
            final(self).signal_waker() == waker,
            final(self).stop_waker() == old(self).stop_waker(),
            final(self).mask_bits() == old(self).mask_bits(),
            final(self).pending() == old(self).pending(),
            final(self).wf() == old(self).wf(),
            forall|n: u32| final(self).action(n) == old(self).action(n),
    {
        self.signal_waker = waker;
    }

    /// Register the waker that ends a stop. None may be registered yet.
    pub fn set_stop_waker(&mut self, waker: S)
        requires
            old(self).stop_waker() is None,
        ensures
            final(self).stop_waker() == Some(waker),
            final(self).signal_waker() == old(self).signal_waker(),
            final(self).mask_bits() == old(self).mask_bits(),
            final(self).pending() == old(self).pending(),
            final(self).wf() == old(self).wf(),
            forall|n: u32| final(self).action(n) == old(self).action(n),
    {
        self.stop_waker = Some(waker);
    }

    /// Reset all dispositions but `Ignore`, as `execve` does.
    pub fn clear_non_ignore(&mut self)
        requires
            old(self).wf(),
        ensures
            final(self).wf(),
            forall|n: u32|
                valid_signal(n) ==> final(self).action(n) == (if old(self).action(n)
                    == SignalAction::Ignore {
                    SignalAction::Ignore
                } else {
                    SignalAction::Default
                }),
            final(self).mask_bits() == old(self).mask_bits(),
            final(self).pending() == old(self).pending(),
    {
        self.actions.remove_non_ignore();
    }

    /// Drop all pending signals, as `fork` does.
    pub fn clear_pending(&mut self)
        requires
            old(self).wf(),
        ensures
            final(self).wf(),
            final(self).pending() =~= Multiset::<u32>::empty(),
            final(self).mask_bits() == old(self).mask_bits(),
            forall|n: u32| final(self).action(n) == old(self).action(n),
    {
        self.pending.clear();
        proof {
            assert(self.pending@.to_multiset().len() == 0);
        }
    }

    /// Whether some signal is pending.
    pub fn has_pending_signal(&self) -> (r: bool)
        ensures
            r == (self.pending().len() > 0),
    {
        self.pending.len() != 0
    }

    /// Raise `signal`. Unless its disposition ignores it, the signal is
    /// blocked and queued, and the waker that must run is handed back:
    /// the stop waker for `SIGCONT`, the signal waker otherwise.
    pub fn raise(&mut self, signal: Signal) -> (r: (RaiseResult, Option<W>, Option<S>))
        requires
            old(self).wf(),
        ensures
            final(self).wf(),
            r.0 == RaiseResult::Finished,
            forall|n: u32| final(self).action(n) == old(self).action(n),
            raise_queues(old(self).action(signal@), signal@) ==> {
                &&& final(self).pending() == old(self).pending().insert(signal@)
                &&& final(self).mask_bits() == old(self).mask_bits() | signal_bit(signal@)
                &&& if signal@ == SIGCONT {
                    &&& r.1 is None
                    &&& r.2 == old(self).stop_waker()
                    &&& final(self).stop_waker() is None
                    &&& final(self).signal_waker() == old(self).signal_waker()
                } else {
                    &&& r.1 == old(self).signal_waker()
                    &&& r.2 is None
                    &&& final(self).signal_waker() is None
                    &&& final(self).stop_waker() == old(self).stop_waker()
                }
            },
            !raise_queues(old(self).action(signal@), signal@) ==> {
                &&& final(self).pending() == old(self).pending()
                &&& final(self).mask_bits() == old(self).mask_bits()
                &&& r.1 is None
                &&& r.2 is None
                &&& final(self).signal_waker() == old(self).signal_waker()
                &&& final(self).stop_waker() == old(self).stop_waker()
            },
    {
        let action = self.actions.get(signal);
        let queue = match action {
            SignalAction::Ignore => false,
            SignalAction::Default => !signal.is_default_ignored(),
            _ => true,
        };
        if !queue {
            return (RaiseResult::Finished, None, None);
        }
        let n = signal.into_raw();
        self.mask.mask(SigSet::of(signal));
        self.pending.push(n);
        proof {
            assert forall|i: int| 0 <= i < self.pending@.len() implies valid_signal(
                #[trigger] self.pending@[i],
            ) by {
                if i < old(self).pending@.len() {
                    assert(self.pending@[i] == old(self).pending@[i]);
                }
            }
        }
        if n == SIGCONT {
            let waker = self.stop_waker.take();
            (RaiseResult::Finished, None, waker)
        } else {
            let waker = self.signal_waker.take();
            (RaiseResult::Finished, waker, None)
        }
    }

    /// Take the least pending signal.
    fn pop(&mut self) -> (r: Option<Signal>)
        requires
            old(self).wf(),
        ensures
            final(self).wf(),
            final(self).mask == old(self).mask,
            final(self).actions == old(self).actions,
            final(self).signal_waker == old(self).signal_waker,
            final(self).stop_waker == old(self).stop_waker,
            old(self).pending().len() == 0 <==> r is None,
            old(self).pending().len() == 0 ==> final(self).pending() == old(self).pending(),
            r matches Some(s) ==> {
                &&& is_least(old(self).pending(), s@)
                &&& final(self).pending() == old(self).pending().remove(s@)
            },
    {
        if self.pending.len() == 0 {
            return None;
        }
        let mut best: usize = 0;
        let mut i: usize = 1;
        while i < self.pending.len()
            invariant
                1 <= i <= self.pending@.len(),
                best < i,
                forall|k: int| 0 <= k < i ==> self.pending@[best as int] <= self.pending@[k],
            decreases self.pending@.len() - i,
        {
            if self.pending[i] < self.pending[best] {
                best = i;
            }
            i = i + 1;
        }
        let ghost before = self.pending@;
        let n = self.pending.remove(best);
        proof {
            assert(valid_signal(before[best as int]));
            assert forall|x: u32| before.to_multiset().count(x) > 0 implies n <= x by {
                assert(before.contains(x));
                let k = choose|k: int| 0 <= k < before.len() && before[k] == x;
                assert(before[k] == x);
            }
            assert(before.to_multiset().count(n) > 0) by {
                assert(before[best as int] == n);
                assert(before.contains(n));
            }
            assert forall|k: int| 0 <= k < self.pending@.len() implies valid_signal(
                #[trigger] self.pending@[k],
            ) by {
                if k < best {
                    assert(self.pending@[k] == before[k]);
                } else {
                    assert(self.pending@[k] == before[k + 1]);
                }
            }
        }
        match Signal::try_from_raw(n) {
            Ok(s) => Some(s),
            Err(_) => None,
        }
    }

    /// Decide what to do about the least pending signal. A signal with a
    /// user handler is delivered with the handler's mask added to the
    /// blocked set; any other signal is unblocked and its default action
    /// is returned.
    pub fn next_step(&mut self) -> (r: HandleStep)
        requires
            old(self).wf(),
        ensures
            final(self).wf(),
            forall|n: u32| final(self).action(n) == old(self).action(n),
            final(self).signal_waker() == old(self).signal_waker(),
            final(self).stop_waker() == old(self).stop_waker(),
            stepped(*old(self), *final(self), r),
    {
        let signal = match self.pop() {
            Some(s) => s,
            None => return HandleStep::Done,
        };
        let action = self.actions.get(signal);
        match action {
            SignalAction::SimpleHandler { handler, restorer, mask } => {
                let old_mask = self.mask;
                self.mask.mask(mask);
                HandleStep::Deliver { signal, handler, restorer, old_mask }
            },
            _ => {
                self.mask.unmask(SigSet::of(signal));
                if signal.is_default_ignored() || signal.into_raw() == SIGCONT {
                    HandleStep::Nothing { signal }
                } else if signal.is_stop() {
                    HandleStep::Stop { signal }
                } else {
                    HandleStep::Terminate { signal }
                }
            },
        }
    }

    /// The user handler could not be entered: restore the mask saved by
    /// `next_step` and raise `SIGSEGV` for a fault, `SIGSYS` otherwise.
    pub fn delivery_failed(&mut self, old_mask: SigSet, err: u32) -> (r: (
        RaiseResult,
        Option<W>,
        Option<S>,
    ))
        requires
            old(self).wf(),
        ensures
            final(self).wf(),
            forall|n: u32| final(self).action(n) == old(self).action(n),
            ({
                let n: u32 = if err == EFAULT {
                    11
                } else {
                    31
                };
                &&& raise_queues(old(self).action(n), n) ==> {
                    &&& final(self).pending() == old(self).pending().insert(n)
                    &&& final(self).mask_bits() == old_mask@ | signal_bit(n)
                    &&& r.1 == old(self).signal_waker()
                    &&& final(self).signal_waker() is None
                }
                &&& !raise_queues(old(self).action(n), n) ==> {
                    &&& final(self).pending() == old(self).pending()
                    &&& final(self).mask_bits() == old_mask@
                    &&& r.1 is None
                }
            }),
            r.2 is None,
            final(self).stop_waker() == old(self).stop_waker(),
    {
        self.mask = old_mask;
        let signal = if err == EFAULT {
            Signal::sigsegv()
        } else {
            Signal::sigsys()
        };
        self.raise(signal)
    }
}

/// What `next_step` did to `old`, giving `new` and `r`: nothing pending
/// gives `Done` and no change; otherwise the least pending signal is taken,
/// and either delivered to its handler with the handler's mask added, or
/// unblocked with its default action.
pub open spec fn stepped<W, S>(old: SignalList<W, S>, new: SignalList<W, S>, r: HandleStep) -> bool {
    &&& old.pending().len() == 0 ==> r == HandleStep::Done && new.pending() == old.pending()
        && new.mask_bits() == old.mask_bits()
    &&& old.pending().len() > 0 ==> r != HandleStep::Done
    &&& r matches HandleStep::Deliver { signal, handler, restorer, old_mask } ==> {
        &&& is_least(old.pending(), signal@)
        &&& new.pending() == old.pending().remove(signal@)
        &&& old_mask@ == old.mask_bits()
        &&& old.action(signal@) matches SignalAction::SimpleHandler { handler: h, restorer: rs, mask: m }
            && h == handler && rs == restorer && new.mask_bits() == old.mask_bits() | m@
    }
    &&& r matches HandleStep::Nothing { signal } ==> default_outcome(old, new, signal, r)
    &&& r matches HandleStep::Stop { signal } ==> default_outcome(old, new, signal, r)
    &&& r matches HandleStep::Terminate { signal } ==> default_outcome(old, new, signal, r)
}

/// A signal caught by a handler is delivered to it: when it is the only
/// pending signal, the next step runs its handler with its restorer.
pub proof fn law_caught_signal_is_delivered<W, S>(
    l: SignalList<W, S>,
    after: SignalList<W, S>,
    r: HandleStep,
    s: Signal,
)
    requires
        l.pending() == Multiset::<u32>::empty().insert(s@),
        l.action(s@) is SimpleHandler,
        stepped(l, after, r),
    ensures
        r matches HandleStep::Deliver { signal, handler, restorer, .. } && signal@ == s@
            && handler == l.action(s@)->handler && restorer == l.action(s@)->restorer,
{
    assert(l.pending().len() == 1);
    assert(l.pending().count(s@) == 1);
    match r {
        HandleStep::Deliver { signal, .. } => {
            assert(l.pending().count(signal@) > 0);
        },
        HandleStep::Nothing { signal } => {
            assert(l.pending().count(signal@) > 0);
        },
        HandleStep::Stop { signal } => {
            assert(l.pending().count(signal@) > 0);
        },
        HandleStep::Terminate { signal } => {
            assert(l.pending().count(signal@) > 0);
        },
        HandleStep::Done => {},
    }
}

/// After a signal without a handler: it left the pending set, was
/// unblocked, and the default action was chosen.
pub open spec fn default_outcome<W, S>(
    old: SignalList<W, S>,
    new: SignalList<W, S>,
    signal: Signal,
    r: HandleStep,
) -> bool {
    &&& is_least(old.pending(), signal@)
    &&& new.pending() == old.pending().remove(signal@)
    &&& !(old.action(signal@) is SimpleHandler)
    &&& new.mask_bits() == old.mask_bits() & !signal_bit(signal@)
    &&& r == default_step(signal)
}

} // verus!
