use eonix::errno::{ECHILD, EINVAL, ENOTTY, EPERM, ESRCH};
use eonix::signal::sigset::Signal;
use eonix::task::clone::{CloneArgs, CLONE_SETTLS, CLONE_VFORK, CLONE_VM};
use eonix::task::run::{run_step, trap_action, RunStep, Trap, TrapAction};
use eonix::task::pid::{alloc_pid, PidAllocator};
use eonix::task::process_list::{ProcessBuilder, ProcessList, WaitPoll};
use eonix::terminal::Terminal;
use eonix::task::wait::{
    passed_on, passed_to_new_parent, take_wanted, WaitId, WaitObject, WaitType, CLD_CONTINUED,
    CLD_DUMPED, CLD_EXITED, CLD_KILLED, CLD_STOPPED,
};

fn ready(p: WaitPoll) -> Result<Option<WaitObject>, u32> {
    match p {
        WaitPoll::Ready(r) => r,
        WaitPoll::Block => panic!("the waiter was told to block"),
    }
}

/// Init (pid 1) with two children, 2 and 3, all in group and session 1.
fn family() -> ProcessList {
    let mut list = ProcessList::new();
    assert_eq!(ProcessBuilder::new().pid(1).build(&mut list), 1);
    list.set_init_process(1);
    for pid in [2u32, 3] {
        let got = ProcessBuilder::new()
            .pid(pid)
            .parent(1)
            .pgroup(1)
            .session(1)
            .exit_signal(Signal::sigchld())
            .build(&mut list);
        assert_eq!(got, pid);
    }
    list
}

#[test]
fn pids_count_up_from_one() {
    let mut c = PidAllocator::new();
    assert_eq!(alloc_pid(&mut c), 1);
    assert_eq!(alloc_pid(&mut c), 2);
    assert_eq!(alloc_pid(&mut c), 3);
}

#[test]
fn wait_ids_from_arguments() {
    assert_eq!(WaitId::from_type_and_id(0, 7), Ok(WaitId::Any));
    assert_eq!(WaitId::from_type_and_id(1, 7), Ok(WaitId::Pid(7)));
    assert_eq!(WaitId::from_type_and_id(2, 7), Ok(WaitId::Pgid(7)));
    assert_eq!(WaitId::from_type_and_id(4, 7), Err(EINVAL));
    assert_eq!(WaitId::from_id(-5, 9), WaitId::Pgid(5));
    assert_eq!(WaitId::from_id(-1, 9), WaitId::Any);
    assert_eq!(WaitId::from_id(0, 9), WaitId::Pgid(9));
    assert_eq!(WaitId::from_id(4, 9), WaitId::Pid(4));
}

#[test]
fn wait_status_words() {
    assert_eq!(WaitType::Exited(3).to_wstatus(), 0x300);
    assert_eq!(WaitType::Exited(0x1ff).to_wstatus(), 0xff00);
    assert_eq!(WaitType::Signaled(Signal::sigsegv()).to_wstatus(), 11 | 0x80);
    assert_eq!(WaitType::Signaled(Signal::sigkill()).to_wstatus(), 9);
    assert_eq!(WaitType::Stopped(Signal::sigstop()).to_wstatus(), 0x7f | (19 << 8));
    assert_eq!(WaitType::Continued.to_wstatus(), 0xffff);
}

#[test]
fn wait_status_codes() {
    assert_eq!(WaitType::Exited(3).to_status_code(), (3, CLD_EXITED));
    assert_eq!(WaitType::Signaled(Signal::sigsegv()).to_status_code(), (11, CLD_DUMPED));
    assert_eq!(WaitType::Signaled(Signal::sigkill()).to_status_code(), (9, CLD_KILLED));
    assert_eq!(WaitType::Stopped(Signal::sigtstp()).to_status_code(), (20, CLD_STOPPED));
    assert_eq!(WaitType::Continued.to_status_code(), (18, CLD_CONTINUED));
}

#[test]
fn wait_object_queries() {
    let s = WaitObject { pid: 4, code: WaitType::Stopped(Signal::sigstop()) };
    assert_eq!(s.stopped(), Some(Signal::sigstop()));
    assert!(!s.is_continue());
    let c = WaitObject { pid: 4, code: WaitType::Continued };
    assert_eq!(c.stopped(), None);
    assert!(c.is_continue());
    assert!(!passed_to_new_parent(&s));
    assert!(passed_to_new_parent(&WaitObject { pid: 4, code: WaitType::Exited(0) }));
}

#[test]
fn the_first_wanted_event_is_taken() {
    let stop = WaitObject { pid: 5, code: WaitType::Stopped(Signal::sigstop()) };
    let exit = WaitObject { pid: 6, code: WaitType::Exited(0) };
    let mut events = vec![stop, exit];
    let pgids = vec![Some(5), Some(6)];
    assert_eq!(take_wanted(&mut events, &pgids, false, false, WaitId::Any), Some(exit));
    assert_eq!(events, vec![stop]);
    let pgids = vec![Some(5)];
    assert_eq!(take_wanted(&mut events, &pgids, false, false, WaitId::Any), None);
    assert_eq!(take_wanted(&mut events, &pgids, true, false, WaitId::Pgid(6)), None);
    assert_eq!(take_wanted(&mut events, &pgids, true, false, WaitId::Pgid(5)), Some(stop));
    assert!(events.is_empty());
}

#[test]
fn only_exit_events_pass_on() {
    let events = vec![
        WaitObject { pid: 5, code: WaitType::Stopped(Signal::sigstop()) },
        WaitObject { pid: 6, code: WaitType::Exited(1) },
        WaitObject { pid: 7, code: WaitType::Continued },
        WaitObject { pid: 8, code: WaitType::Signaled(Signal::sigkill()) },
    ];
    assert_eq!(
        passed_on(&events),
        vec![
            WaitObject { pid: 6, code: WaitType::Exited(1) },
            WaitObject { pid: 8, code: WaitType::Signaled(Signal::sigkill()) },
        ]
    );
}

#[test]
fn clone_arguments() {
    let a = CloneArgs::for_clone(CLONE_VM | CLONE_SETTLS | 17, 0x1000, 0xa, 0xb, 0xc).unwrap();
    assert_eq!(a.flags, CLONE_VM | CLONE_SETTLS);
    assert_eq!(a.sp, Some(0x1000));
    assert_eq!(a.exit_signal, Some(Signal::sigchld()));
    assert_eq!(a.set_tid_ptr, None);
    assert_eq!(a.clear_tid_ptr, None);
    assert_eq!(a.parent_tid_ptr, None);
    assert_eq!(a.tls, Some(0xc));
    assert!(a.shares(CLONE_VM));
    assert!(!a.shares(CLONE_VFORK));
    let b = CloneArgs::for_clone(0, 0, 0, 0, 0).unwrap();
    assert_eq!(b.exit_signal, None);
    assert_eq!(b.sp, None);
    assert_eq!(CloneArgs::for_clone(65, 0, 0, 0, 0), Err(EINVAL));
    let f = CloneArgs::for_fork();
    assert_eq!(f.flags, 0);
    assert_eq!(f.exit_signal, Some(Signal::sigchld()));
    let v = CloneArgs::for_vfork();
    assert_eq!(v.flags, CLONE_VFORK | CLONE_VM);
}

#[test]
fn built_processes_join_the_family() {
    let list = family();
    assert_eq!(list.init_process(), 1);
    let init = list.try_find_process(1).unwrap();
    assert_eq!(init.parent, None);
    assert_eq!(init.children, vec![2, 3]);
    assert_eq!(init.threads, vec![1]);
    let two = list.try_find_process(2).unwrap();
    assert_eq!(two.parent, Some(1));
    assert_eq!(two.pgid, 1);
    assert_eq!(two.sid, 1);
    assert_eq!(list.try_find_thread(2), Some(2));
    assert_eq!(list.try_find_thread(9), None);
    assert_eq!(list.try_find_pgroup(1).unwrap().processes, vec![1, 2, 3]);
    assert_eq!(list.try_find_session(1).unwrap().groups, vec![1]);
    assert!(list.try_find_process(4).is_none());
}

#[test]
fn setpgid_moves_between_groups() {
    let mut list = family();
    assert_eq!(list.setpgid(2, 2, 2), Ok(()));
    assert_eq!(list.try_find_process(2).unwrap().pgid, 2);
    assert_eq!(list.try_find_pgroup(2).unwrap().processes, vec![2]);
    assert_eq!(list.try_find_session(1).unwrap().groups, vec![1, 2]);
    assert_eq!(list.setpgid(1, 2, 1), Ok(()));
    assert_eq!(list.try_find_process(2).unwrap().pgid, 1);
    assert!(list.try_find_pgroup(2).is_none());
    assert_eq!(list.setpgid(1, 9, 1), Err(ESRCH));
    assert_eq!(list.setpgid(2, 2, 7), Err(EPERM));
    assert_eq!(list.setpgid(1, 1, 1), Err(EPERM));
}

#[test]
fn setsid_starts_a_session() {
    let mut list = family();
    assert_eq!(list.setsid(3), Ok(3));
    let three = list.try_find_process(3).unwrap();
    assert_eq!(three.sid, 3);
    assert_eq!(three.pgid, 3);
    assert_eq!(list.try_find_session(3).unwrap().groups, vec![3]);
    assert_eq!(list.try_find_pgroup(1).unwrap().processes, vec![1, 2]);
    assert_eq!(list.setsid(3), Err(EPERM));
    assert_eq!(list.setpgid(1, 3, 1), Err(EPERM));
}

#[test]
fn foreground_group() {
    let mut list = family();
    assert_eq!(list.foreground(1), None);
    assert_eq!(list.set_foreground_pgid(1, 1), Ok(()));
    assert_eq!(list.foreground(1), Some(1));
    assert_eq!(list.set_foreground_pgid(1, 7), Err(EPERM));
    assert_eq!(list.foreground(1), Some(1));
    assert_eq!(list.drop_control_terminal(1), None);
    assert_eq!(list.foreground(1), None);
}

#[test]
fn exit_and_wait_reap_the_child() {
    let mut list = family();
    let out = list.do_exit(2, 2, WaitType::Exited(3), false);
    assert!(out.last_thread);
    assert_eq!(out.dropped_terminal, None);
    assert!(!out.notify_init);
    assert_eq!(out.parent_signal, Some((1, Signal::sigchld())));
    assert_eq!(list.try_find_thread(2), Some(2));
    assert!(list.try_find_process(2).unwrap().threads.is_empty());

    let got = ready(list.wait_step(1, WaitId::Any, false, false, false));
    assert_eq!(got, Ok(Some(WaitObject { pid: 2, code: WaitType::Exited(3) })));
    assert!(list.try_find_process(2).is_none());
    assert_eq!(list.try_find_thread(2), None);
    assert_eq!(list.try_find_process(1).unwrap().children, vec![3]);
    assert_eq!(list.try_find_pgroup(1).unwrap().processes, vec![1, 3]);

    assert_eq!(ready(list.wait_step(1, WaitId::Any, true, false, false)), Ok(None));
    assert!(matches!(list.wait_step(1, WaitId::Any, false, false, false), WaitPoll::Block));
    assert_eq!(ready(list.wait_step(3, WaitId::Any, false, false, false)), Err(ECHILD));
}

#[test]
fn stop_events_are_seen_only_when_asked() {
    let mut list = family();
    let stop = WaitObject { pid: 3, code: WaitType::Stopped(Signal::sigstop()) };
    list.notify(1, stop);
    assert_eq!(ready(list.wait_step(1, WaitId::Pid(3), true, false, false)), Ok(None));
    assert_eq!(ready(list.wait_step(1, WaitId::Pid(3), true, true, false)), Ok(Some(stop)));
    assert!(list.try_find_process(3).is_some());
    assert!(list.try_find_process(1).unwrap().wait_list.is_empty());
}

#[test]
fn orphans_go_to_init() {
    let mut list = family();
    let four = ProcessBuilder::new()
        .pid(4)
        .parent(3)
        .pgroup(1)
        .session(1)
        .exit_signal(Signal::sigchld())
        .build(&mut list);
    assert_eq!(four, 4);
    let out = list.do_exit(3, 3, WaitType::Signaled(Signal::sigkill()), true);
    assert!(out.last_thread);
    assert_eq!(list.try_find_process(4).unwrap().parent, Some(1));
    assert!(list.try_find_process(1).unwrap().children.contains(&4));
    assert!(list.try_find_process(3).unwrap().children.is_empty());
    let got = ready(list.wait_step(1, WaitId::Pid(3), false, false, false));
    assert_eq!(got, Ok(Some(WaitObject { pid: 3, code: WaitType::Signaled(Signal::sigkill()) })));
}

#[test]
fn a_thread_exit_keeps_the_process() {
    let mut list = family();
    list.add_thread(3, 7);
    assert_eq!(list.try_find_thread(7), Some(3));
    assert_eq!(list.try_find_process(3).unwrap().threads, vec![3, 7]);
    let out = list.do_exit(3, 3, WaitType::Exited(0), false);
    assert!(!out.last_thread);
    assert_eq!(out.parent_signal, None);
    assert!(!out.notify_init);
    assert_eq!(list.try_find_process(3).unwrap().threads, vec![7]);
    assert!(list.try_find_process(1).unwrap().wait_list.is_empty());
    let out = list.do_exit(3, 7, WaitType::Exited(5), false);
    assert!(out.last_thread);
    assert_eq!(out.parent_signal, Some((1, Signal::sigchld())));
    let got = ready(list.wait_step(1, WaitId::Pid(3), false, false, false));
    assert_eq!(got, Ok(Some(WaitObject { pid: 3, code: WaitType::Exited(5) })));
}

#[test]
fn session_and_group_lookups() {
    let mut list = family();
    assert_eq!(list.getsid(2, 0), Ok(1));
    assert_eq!(list.getpgid(2, 0), Ok(1));
    assert_eq!(list.setsid(3), Ok(3));
    assert_eq!(list.getsid(2, 3), Ok(3));
    assert_eq!(list.getpgid(2, 3), Ok(3));
    assert_eq!(list.getsid(2, 9), Err(ESRCH));
    assert_eq!(list.getpgid(2, 9), Err(ESRCH));
}

#[test]
fn tkill_checks_the_thread_then_the_signal() {
    let list = family();
    assert_eq!(list.tkill_signal(2, 9), Ok(Signal::sigkill()));
    assert_eq!(list.tkill_signal(99, 9), Err(ESRCH));
    assert_eq!(list.tkill_signal(2, 0), Err(EINVAL));
    assert_eq!(list.tkill_signal(99, 0), Err(ESRCH));
    assert_eq!(list.tkill_signal(2, 65), Err(EINVAL));
}

#[test]
fn control_terminals() {
    let mut list = family();
    assert_eq!(list.setsid(3), Ok(3));
    let mut tty = Terminal::new();
    assert_eq!(tty.session(), None);
    assert_eq!(list.set_control_terminal(3, 7, &mut tty, false), Ok(()));
    assert_eq!(tty.session(), Some(3));
    let s3 = list.try_find_session(3).unwrap();
    assert_eq!(s3.control_terminal, Some(7));
    assert_eq!(s3.foreground, Some(3));
    assert_eq!(list.foreground(3), Some(3));
    assert_eq!(list.set_control_terminal(3, 7, &mut tty, false), Ok(()));
    let mut other = Terminal::new();
    assert_eq!(list.set_control_terminal(3, 8, &mut other, false), Err(EPERM));
    assert_eq!(other.session(), None);

    assert_eq!(list.set_control_terminal(1, 7, &mut tty, false), Err(EPERM));
    assert_eq!(list.try_find_session(1).unwrap().control_terminal, None);
    assert_eq!(list.set_control_terminal(1, 7, &mut tty, true), Ok(()));
    assert_eq!(list.try_find_session(1).unwrap().control_terminal, Some(7));
    assert_eq!(list.try_find_session(1).unwrap().foreground, Some(1));
    assert_eq!(list.try_find_session(3).unwrap().control_terminal, None);
    assert_eq!(list.foreground(3), None);
    assert_eq!(tty.session(), Some(1));
    tty.drop_session();
    assert_eq!(tty.session(), None);
}

#[test]
fn traps_become_actions() {
    assert_eq!(
        trap_action(Trap::PageFault { addr: 0x1000, error_code: 6 }, true),
        TrapAction::HandlePageFault { addr: 0x1000, error_code: 6 }
    );
    assert_eq!(trap_action(Trap::BadAccess, true), TrapAction::Raise(Signal::sigsegv()));
    assert_eq!(trap_action(Trap::InvalidOp, false), TrapAction::Raise(Signal::sigill()));
    assert_eq!(trap_action(Trap::Irq, false), TrapAction::HandleIrq);
    assert_eq!(
        trap_action(Trap::Timer { reschedule: true }, false),
        TrapAction::HandleTimer { then_yield: true }
    );
    let args = [1, 2, 3, 4, 5, 6];
    assert_eq!(
        trap_action(Trap::Syscall { no: 64, args }, true),
        TrapAction::Syscall { no: 64, args, pc_advance: 4 }
    );
    assert_eq!(
        trap_action(Trap::Syscall { no: 64, args }, false),
        TrapAction::Syscall { no: 64, args, pc_advance: 0 }
    );
    assert_eq!(run_step(true, true, false), RunStep::Leave);
    assert_eq!(run_step(false, true, false), RunStep::HandleSignals);
    assert_eq!(run_step(false, true, true), RunStep::ReturnToUser);
    assert_eq!(run_step(false, false, false), RunStep::ReturnToUser);
}

#[test]
fn clone_makes_a_thread_or_a_child() {
    let mut list = family();
    let fork = CloneArgs::for_fork();
    assert_eq!(list.do_clone(2, 10, &fork), 10);
    let child = list.try_find_process(10).unwrap();
    assert_eq!(child.parent, Some(2));
    assert_eq!(child.pgid, 1);
    assert_eq!(child.sid, 1);
    assert_eq!(child.exit_signal, Some(Signal::sigchld()));
    assert_eq!(child.threads, vec![10]);
    assert_eq!(list.try_find_process(2).unwrap().children, vec![10]);

    let thread = CloneArgs::for_clone(CLONE_VM | 0x0001_0000 | 0x800, 0x8000, 0, 0, 0).unwrap();
    assert_eq!(list.do_clone(2, 11, &thread), 11);
    assert!(list.try_find_process(11).is_none());
    assert_eq!(list.try_find_thread(11), Some(2));
    assert_eq!(list.try_find_process(2).unwrap().threads, vec![2, 11]);

    let quiet = CloneArgs::for_clone(0, 0, 0, 0, 0).unwrap();
    list.do_clone(3, 12, &quiet);
    assert_eq!(list.try_find_process(12).unwrap().exit_signal, None);
    let out = list.do_exit(12, 12, WaitType::Exited(0), false);
    assert_eq!(out.parent_signal, None);
}

#[test]
fn exit_status_reaches_the_waiting_parent() {
    let mut list = family();
    list.do_clone(3, 20, &CloneArgs::for_fork());
    list.notify(3, WaitObject { pid: 20, code: WaitType::Stopped(Signal::sigtstp()) });
    list.do_exit(20, 20, WaitType::Signaled(Signal::sigsegv()), false);
    let got = ready(list.wait_step(3, WaitId::Pid(20), false, false, false));
    assert_eq!(got, Ok(Some(WaitObject { pid: 20, code: WaitType::Signaled(Signal::sigsegv()) })));
    assert_eq!(
        WaitType::Signaled(Signal::sigsegv()).to_wstatus(),
        11 | 0x80
    );
}

#[test]
fn terminal_process_group_requests() {
    let mut list = family();
    assert_eq!(list.setsid(3), Ok(3));
    let mut tty = Terminal::new();
    list.set_control_terminal(3, 7, &mut tty, false).unwrap();
    assert_eq!(list.terminal_foreground(&tty), Ok(3));
    assert_eq!(list.terminal_set_foreground(&tty, 1), Err(EPERM));
    let four = ProcessBuilder::new().pid(4).parent(3).session(3).build(&mut list);
    assert_eq!(four, 4);
    assert_eq!(list.try_find_pgroup(4).unwrap().session, 3);
    assert_eq!(list.terminal_set_foreground(&tty, 4), Ok(()));
    assert_eq!(list.terminal_foreground(&tty), Ok(4));
    let other = Terminal::new();
    assert_eq!(list.terminal_foreground(&other), Err(ENOTTY));
    let mut other = other;
    assert_eq!(list.terminal_set_foreground(&other, 3), Err(ENOTTY));
    other.link_session(99);
    assert_eq!(list.terminal_foreground(&other), Err(ENOTTY));
}

#[test]
fn an_exiting_thread_leaves_the_list() {
    let mut list = family();
    list.add_thread(2, 8);
    list.add_thread(2, 9);
    let out = list.do_exit(2, 8, WaitType::Exited(0), false);
    assert!(!out.last_thread);
    let threads = &list.try_find_process(2).unwrap().threads;
    assert_eq!(threads, &vec![2, 9]);
    assert!(!threads.contains(&8));
}

#[test]
fn a_process_can_end_with_a_stop_status() {
    let mut list = family();
    let out = list.do_exit(2, 2, WaitType::Stopped(Signal::sigstop()), false);
    assert!(out.last_thread);
    assert!(list.try_find_process(2).unwrap().threads.is_empty());
    assert_eq!(
        list.try_find_process(1).unwrap().wait_list,
        vec![WaitObject { pid: 2, code: WaitType::Stopped(Signal::sigstop()) }]
    );
}
