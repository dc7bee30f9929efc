use eonix::errno::{EFAULT, EINVAL};
use eonix::signal::action::{SigAction, SignalAction, SignalActionList, SA_RESTORER, SA_SIGINFO, SIG_DFL, SIG_IGN};
use eonix::signal::frame::{handler_frame, restore_layout};
use eonix::signal::list::{HandleStep, RaiseResult, SignalList};
use eonix::signal::sigset::{SigSet, Signal};

#[test]
fn signal_numbers_are_checked() {
    assert_eq!(Signal::try_from_raw(0), Err(EINVAL));
    assert_eq!(Signal::try_from_raw(65), Err(EINVAL));
    assert_eq!(Signal::try_from_raw(9).unwrap().into_raw(), 9);
    assert_eq!(Signal::sigkill().into_raw(), 9);
    assert_eq!(Signal::sigchld().into_raw(), 17);
    assert_eq!(Signal::sigcont().into_raw(), 18);
}

#[test]
fn signal_classes() {
    assert!(Signal::sigkill().is_uncatchable());
    assert!(Signal::sigstop().is_uncatchable());
    assert!(!Signal::sigint().is_uncatchable());
    assert!(Signal::sigchld().is_default_ignored());
    assert!(Signal::sigtstp().is_stop());
    assert!(Signal::sigsegv().is_coredump());
    assert!(Signal::sigquit().is_coredump());
    assert!(!Signal::sighup().is_coredump());
}

#[test]
fn sigset_mask_and_unmask() {
    let mut s = SigSet::empty();
    assert_eq!(s.bits(), 0);
    s.mask(SigSet::of(Signal::sighup()));
    assert_eq!(s.bits(), 1);
    assert!(s.contains(Signal::sighup()));
    s.mask(SigSet::from_bits(1 << 8));
    assert!(s.contains(Signal::sigkill()));
    s.unmask(SigSet::of(Signal::sighup()));
    assert!(!s.contains(Signal::sighup()));
    assert_eq!(s.bits(), 1 << 8);
    assert_eq!(SigSet::of(Signal::sigsys()).bits(), 1 << 30);
}

#[test]
fn sigaction_round_trip() {
    let sa = SigAction { handler: 0x4000, flags: SA_RESTORER, restorer: 0x5000, mask: 6 };
    let a = SignalAction::try_from_sigaction(sa).unwrap();
    assert_eq!(
        a,
        SignalAction::SimpleHandler { handler: 0x4000, restorer: Some(0x5000), mask: SigSet::from_bits(6) }
    );
    assert_eq!(a.to_sigaction(), sa);
    let d = SignalAction::try_from_sigaction(SigAction { handler: SIG_DFL, flags: 0, restorer: 0, mask: 0 });
    assert_eq!(d, Ok(SignalAction::Default));
    let i = SignalAction::try_from_sigaction(SigAction { handler: SIG_IGN, flags: 0, restorer: 0, mask: 0 });
    assert_eq!(i, Ok(SignalAction::Ignore));
    let bad = SignalAction::try_from_sigaction(SigAction { handler: 0x4000, flags: SA_SIGINFO, restorer: 0, mask: 0 });
    assert_eq!(bad, Err(EINVAL));
}

#[test]
fn action_list_keeps_ignored_only() {
    let mut l = SignalActionList::new();
    let h = SignalAction::SimpleHandler { handler: 0x10, restorer: None, mask: SigSet::empty() };
    l.set(Signal::sigint(), h);
    l.set(Signal::sighup(), SignalAction::Ignore);
    assert_eq!(l.get(Signal::sigint()), h);
    let c = SignalActionList::new_cloned(&l);
    assert_eq!(c.get(Signal::sigint()), h);
    l.remove_non_ignore();
    assert_eq!(l.get(Signal::sigint()), SignalAction::Default);
    assert_eq!(l.get(Signal::sighup()), SignalAction::Ignore);
}

#[test]
fn raise_then_deliver_lowest_first() {
    let mut l: SignalList<u32, u32> = SignalList::new();
    let h = SignalAction::SimpleHandler { handler: 0x10, restorer: Some(0x20), mask: SigSet::of(Signal::sigquit()) };
    assert_eq!(l.set_action(Signal::sigint(), h), Ok(()));
    l.set_signal_waker(Some(7));
    let (r, w, s) = l.raise(Signal::sigsegv());
    assert_eq!(r, RaiseResult::Finished);
    assert_eq!(w, Some(7));
    assert_eq!(s, None);
    l.raise(Signal::sigint());
    assert!(l.has_pending_signal());
    // both are blocked while pending
    assert!(l.get_mask().contains(Signal::sigint()));
    match l.next_step() {
        HandleStep::Deliver { signal, handler, restorer, old_mask } => {
            assert_eq!(signal.into_raw(), 2);
            assert_eq!(handler, 0x10);
            assert_eq!(restorer, Some(0x20));
            assert!(old_mask.contains(Signal::sigint()));
        }
        other => panic!("unexpected {:?}", other),
    }
    assert_eq!(l.next_step(), HandleStep::Terminate { signal: Signal::sigsegv() });
    assert_eq!(l.next_step(), HandleStep::Done);
}

#[test]
fn ignored_signals_are_not_queued() {
    let mut l: SignalList<u32, u32> = SignalList::new();
    l.raise(Signal::sigchld());
    assert!(!l.has_pending_signal());
    l.set_action(Signal::sighup(), SignalAction::Ignore).unwrap();
    l.raise(Signal::sighup());
    assert!(!l.has_pending_signal());
}

#[test]
fn uncatchable_actions_are_refused() {
    let mut l: SignalList<u32, u32> = SignalList::new();
    assert_eq!(l.set_action(Signal::sigkill(), SignalAction::Ignore), Err(EINVAL));
    assert_eq!(l.get_action(Signal::sigkill()), SignalAction::Default);
}

#[test]
fn sigcont_wakes_the_stop_waker() {
    let mut l: SignalList<u32, u32> = SignalList::new();
    l.set_stop_waker(3);
    l.set_signal_waker(Some(4));
    let (_, w, s) = l.raise(Signal::sigcont());
    assert_eq!(w, None);
    assert_eq!(s, Some(3));
    assert_eq!(l.next_step(), HandleStep::Nothing { signal: Signal::sigcont() });
    l.raise(Signal::sigtstp());
    assert_eq!(l.next_step(), HandleStep::Stop { signal: Signal::sigtstp() });
}

#[test]
fn mask_updates() {
    let mut l: SignalList<u32, u32> = SignalList::new();
    l.mask(SigSet::from_bits(0b110));
    l.unmask(SigSet::from_bits(0b010));
    assert_eq!(l.get_mask().bits(), 0b100);
    l.set_mask(SigSet::from_bits(0b1));
    assert_eq!(l.get_mask().bits(), 0b1);
}

#[test]
fn failed_delivery_raises_sigsegv_or_sigsys() {
    let mut l: SignalList<u32, u32> = SignalList::new();
    l.delivery_failed(SigSet::empty(), EFAULT);
    assert_eq!(l.next_step(), HandleStep::Terminate { signal: Signal::sigsegv() });
    l.delivery_failed(SigSet::empty(), EINVAL);
    assert_eq!(l.next_step(), HandleStep::Terminate { signal: Signal::sigsys() });
}

#[test]
fn clear_pending_and_non_ignore() {
    let mut l: SignalList<u32, u32> = SignalList::new();
    let h = SignalAction::SimpleHandler { handler: 0x10, restorer: None, mask: SigSet::empty() };
    l.set_action(Signal::sigint(), h).unwrap();
    l.set_action(Signal::sighup(), SignalAction::Ignore).unwrap();
    l.raise(Signal::sigint());
    l.clear_pending();
    assert!(!l.has_pending_signal());
    l.clear_non_ignore();
    assert_eq!(l.get_action(Signal::sigint()), SignalAction::Default);
    assert_eq!(l.get_action(Signal::sighup()), SignalAction::Ignore);
    let c: SignalList<u32, u32> = SignalList::new_cloned(&l);
    assert_eq!(c.get_action(Signal::sighup()), SignalAction::Ignore);
}

#[test]
fn handler_frame_is_aligned_below_red_zone() {
    let f = handler_frame(0x10000, 0x300, true, 0x4000, None, 0x9000, 11);
    assert_eq!(f.saved_data_addr, (0x10000 - 128 - 0x300) & !15);
    assert_eq!(f.return_address, 0x9000);
    assert_eq!(f.entry, 0x4000);
    assert_eq!(f.argument, 11);
    let g = handler_frame(0x1008, 0x8, false, 1, Some(0x77), 0x9000, 2);
    assert_eq!(g.saved_data_addr, 0x1000);
    assert_eq!(g.return_address, 0x77);
}

#[test]
fn restore_layout_offsets() {
    let r = restore_layout(0x1000, true, false, 8, 0x100, 0x200);
    assert_eq!((r.trap_ctx, r.fpu_state, r.mask), (0x1010, 0x1110, 0x1310));
    let r = restore_layout(0x1000, true, true, 8, 0x100, 0x200);
    assert_eq!(r.trap_ctx, 0x1008);
    let r = restore_layout(0x1000, false, false, 8, 0x100, 0x200);
    assert_eq!(r.trap_ctx, 0x1000);
}

#[test]
fn signal_return_checks_the_saved_context() {
    let mut list: SignalList<(), ()> = SignalList::new();
    let before = SigSet::from_bits(1 << 3);
    list.set_mask(before);
    let saved = SigSet::from_bits(1 << 9);
    assert_eq!(list.restore(false, true, saved), Err(EFAULT));
    assert_eq!(list.get_mask(), before);
    assert_eq!(list.restore(true, false, saved), Err(EFAULT));
    assert_eq!(list.get_mask(), before);
    assert_eq!(list.restore(true, true, saved), Ok(()));
    assert_eq!(list.get_mask(), saved);
}
