use eonix::errno::{EEXIST, EFAULT, EINVAL, ENOENT, ENOMEM, ENOSYS, ESRCH};
use eonix::mem::mapping::Permission;
use eonix::mem::page_buffer::FillResult;
use eonix::signal::action::{SigAction, SignalAction, SA_SIGINFO};
use eonix::signal::list::SignalList;
use eonix::signal::sigset::{SigSet, Signal};
use eonix::syscall::mm::{
    ShmAreas,
    mmap_plan, mprotect_plan, munmap_len, permission_of_prot, shmat_plan, shmget_decide, MmapSource,
    Mremap, MremapAction, MremapState, ShmGet, IPC_CREAT, IPC_EXCL, MAP_ANONYMOUS, MAP_FIXED,
    MAP_PRIVATE, MAP_SHARED, MREMAP_DONTUNMAP, MREMAP_FIXED, MREMAP_MAYMOVE, PROT_EXEC, PROT_READ,
    PROT_WRITE, SHM_EXEC, SHM_RDONLY, SHM_RND,
};
use eonix::syscall::procops::{
    check_size, getrusage_check, kill_target, name_from_user, name_to_user, prctl_op, prlimit_check,
    rt_sigaction_check, rt_sigaction_set, setpgid_args, sigprocmask_apply, stack_rlimit, tgkill_check,
    tls_clear_len, umount, wait_options, KillTarget, PrctlOp, RLimit, PR_GET_NAME, PR_SET_NAME, RLIMIT_STACK, SIG_BLOCK,
    SIG_SETMASK, SIG_UNBLOCK, WCONTINUED, WNOHANG, WUNTRACED,
};
use eonix::syscall::retval::{FromSyscallArg, SyscallNoReturn, SyscallRetVal, User};
use eonix::syscall::user::{CheckedUserPointer, UserBuffer};

#[test]
fn prot_bits_to_permission() {
    assert_eq!(
        permission_of_prot(PROT_READ | PROT_EXEC),
        Permission { read: true, write: false, execute: true }
    );
    assert_eq!(permission_of_prot(PROT_WRITE), Permission { read: false, write: true, execute: false });
}

#[test]
fn mmap_plans() {
    let p = mmap_plan(0x1000, 5000, PROT_READ, MAP_PRIVATE | MAP_ANONYMOUS, 0, 0).unwrap();
    assert_eq!(p.len, 8192);
    assert_eq!(p.source, MmapSource::Anonymous);
    assert!(!p.is_shared && !p.fixed);
    let s = mmap_plan(0, 1, PROT_READ, MAP_SHARED | MAP_ANONYMOUS | MAP_FIXED, 0, 0).unwrap();
    assert_eq!(s.source, MmapSource::SharedAnonymous { len: 4096 });
    assert!(s.is_shared && s.fixed);
    let f = mmap_plan(0, 4096, PROT_READ, MAP_PRIVATE, 3, 0x2000).unwrap();
    assert_eq!(f.source, MmapSource::File { fd: 3, offset: 0x2000, len: 4096 });
    assert_eq!(mmap_plan(0x1001, 1, 0, MAP_PRIVATE, 0, 0), Err(EINVAL));
    assert_eq!(mmap_plan(0, 0, 0, MAP_PRIVATE, 0, 0), Err(EINVAL));
    assert_eq!(mmap_plan(0, 1, 0, MAP_PRIVATE | MAP_ANONYMOUS, 0, 0x1000), Err(EINVAL));
    assert_eq!(mmap_plan(0, 1, 0, MAP_PRIVATE, 0, 0x10), Err(EINVAL));
}

#[test]
fn munmap_and_mprotect() {
    assert_eq!(munmap_len(0x1000, 1), Ok(4096));
    assert_eq!(munmap_len(0x1001, 1), Err(EINVAL));
    assert_eq!(munmap_len(0x1000, 0), Err(EINVAL));
    assert_eq!(
        mprotect_plan(0x2000, 4097, PROT_READ | PROT_WRITE),
        Ok((8192, Permission { read: true, write: true, execute: false }))
    );
    assert_eq!(mprotect_plan(0x2001, 1, 0), Err(EINVAL));
}

#[test]
fn shmget_decisions() {
    assert_eq!(shmget_decide(0, 0, true), Ok(ShmGet::Create));
    assert_eq!(shmget_decide(5, IPC_CREAT | IPC_EXCL, true), Err(EEXIST));
    assert_eq!(shmget_decide(5, IPC_CREAT, true), Ok(ShmGet::Existing));
    assert_eq!(shmget_decide(5, IPC_CREAT, false), Ok(ShmGet::Create));
    assert_eq!(shmget_decide(5, 0, false), Err(ENOENT));
}

#[test]
fn shmat_plans() {
    let p = shmat_plan(0, SHM_RDONLY).unwrap();
    assert_eq!(p.addr, None);
    assert_eq!(p.permission, Permission { read: true, write: false, execute: false });
    let q = shmat_plan(0x1234, SHM_RND | SHM_EXEC).unwrap();
    assert_eq!(q.addr, Some(0x1000));
    assert!(q.permission.execute && q.permission.write);
    assert_eq!(shmat_plan(0x1234, 0), Err(EINVAL));
}

#[test]
fn mremap_refusals() {
    assert_eq!(Mremap::start(0x1001, 4096, 4096, 0, 0), Err(EINVAL));
    assert_eq!(Mremap::start(0x1000, 0, 4096, 0, 0), Err(EINVAL));
    assert_eq!(Mremap::start(0x1000, 4096, 4096, MREMAP_DONTUNMAP, 0), Err(EINVAL));
    assert_eq!(Mremap::start(0x1000, 4096, 4096, MREMAP_FIXED, 0x5000), Err(EINVAL));
    assert_eq!(Mremap::start(0x1000, 4096, 4096, 64, 0), Err(EINVAL));
}

#[test]
fn mremap_same_size_returns_old_address() {
    let (mut m, a) = Mremap::start(0x1000, 100, 4000, 0, 0).unwrap();
    assert_eq!(a, MremapAction::Probe { addr: 0x1000 });
    assert_eq!(m.step(Ok(0)), MremapAction::Probe { addr: 0x1fff });
    assert_eq!(m.step(Ok(0)), MremapAction::Finish(Ok(0x1000)));
    assert_eq!(m.state, MremapState::Finished);
}

#[test]
fn mremap_unmapped_old_area_is_enomem() {
    let (mut m, _) = Mremap::start(0x1000, 4096, 8192, 0, 0).unwrap();
    assert_eq!(m.step(Err(EFAULT)), MremapAction::Finish(Err(ENOMEM)));
}

#[test]
fn mremap_shrink() {
    let (mut m, _) = Mremap::start(0x1000, 8192, 4096, 0, 0).unwrap();
    m.step(Ok(0));
    assert_eq!(m.step(Ok(0)), MremapAction::Unmap { addr: 0x2000, len: 0x1000 });
    assert_eq!(m.step(Ok(0)), MremapAction::Finish(Ok(0x1000)));
}

#[test]
fn mremap_grow_in_place_or_move() {
    let (mut m, _) = Mremap::start(0x1000, 4096, 8192, 0, 0).unwrap();
    m.step(Ok(0));
    assert_eq!(m.step(Ok(0)), MremapAction::MapFixed { addr: 0x2000, len: 0x1000 });
    assert_eq!(m.step(Ok(0x2000)), MremapAction::Finish(Ok(0x1000)));

    let (mut m, _) = Mremap::start(0x1000, 4096, 8192, 0, 0).unwrap();
    m.step(Ok(0));
    m.step(Ok(0));
    assert_eq!(m.step(Err(ENOMEM)), MremapAction::Finish(Err(ENOMEM)));

    let (mut m, _) = Mremap::start(0x1000, 8192, 12288, MREMAP_MAYMOVE, 0).unwrap();
    m.step(Ok(0));
    m.step(Ok(0));
    assert_eq!(m.step(Err(ENOMEM)), MremapAction::MapAnywhere { len: 12288 });
    assert_eq!(m.step(Ok(0x10000)), MremapAction::Copy { from: 0x1000, to: 0x10000, len: 4096 });
    assert_eq!(m.step(Ok(0)), MremapAction::Copy { from: 0x2000, to: 0x11000, len: 4096 });
    assert_eq!(m.step(Ok(0)), MremapAction::Unmap { addr: 0x1000, len: 8192 });
    assert_eq!(m.step(Ok(0)), MremapAction::Finish(Ok(0x10000)));
}

#[test]
fn mremap_fixed_target() {
    let (mut m, _) = Mremap::start(0x1000, 4096, 8192, MREMAP_MAYMOVE | MREMAP_FIXED, 0x8000).unwrap();
    m.step(Ok(0));
    assert_eq!(m.step(Ok(0)), MremapAction::Unmap { addr: 0x8000, len: 8192 });
    assert_eq!(m.step(Ok(0)), MremapAction::MapFixed { addr: 0x8000, len: 8192 });
    assert_eq!(m.step(Ok(0x8000)), MremapAction::Copy { from: 0x1000, to: 0x8000, len: 4096 });
    assert_eq!(m.step(Ok(0)), MremapAction::Unmap { addr: 0x1000, len: 4096 });
    assert_eq!(m.step(Ok(0)), MremapAction::Finish(Ok(0x8000)));
}

#[test]
fn thread_names() {
    let mut raw = [0u8; 16];
    raw[..3].copy_from_slice(b"abc");
    assert_eq!(name_from_user(raw), b"abc".to_vec());
    let full = [b'x'; 16];
    assert_eq!(name_from_user(full).len(), 15);
    let out = name_to_user(&b"hello".to_vec());
    assert_eq!(&out[..5], b"hello");
    assert!(out[5..].iter().all(|b| *b == 0));
    let long = name_to_user(&vec![b'y'; 20]);
    assert_eq!(long[14], b'y');
    assert_eq!(long[15], 0);
}

#[test]
fn prctl_options() {
    assert_eq!(prctl_op(PR_SET_NAME), Ok(PrctlOp::SetName));
    assert_eq!(prctl_op(PR_GET_NAME), Ok(PrctlOp::GetName));
    assert_eq!(prctl_op(99), Err(EINVAL));
}

#[test]
fn kill_and_tgkill_targets() {
    assert_eq!(kill_target(0), KillTarget::OwnGroup);
    assert_eq!(kill_target(42), KillTarget::Process(42));
    assert_eq!(kill_target(-7), KillTarget::Group(7));
    assert_eq!(tgkill_check(3, 3), Ok(()));
    assert_eq!(tgkill_check(3, 4), Err(ESRCH));
}

#[test]
fn setpgid_arguments() {
    assert_eq!(setpgid_args(10, 0, 0), Ok((10, 10)));
    assert_eq!(setpgid_args(10, 12, 0), Ok((12, 12)));
    assert_eq!(setpgid_args(10, 12, 5), Ok((12, 5)));
    assert_eq!(setpgid_args(10, 12, -1), Err(EINVAL));
}

#[test]
fn sigprocmask_how() {
    let mut l: SignalList<u32, u32> = SignalList::new();
    assert_eq!(sigprocmask_apply(&mut l, SIG_BLOCK, Some(SigSet::from_bits(0b11))), Ok(()));
    assert_eq!(l.get_mask().bits(), 0b11);
    assert_eq!(sigprocmask_apply(&mut l, SIG_UNBLOCK, Some(SigSet::from_bits(0b01))), Ok(()));
    assert_eq!(l.get_mask().bits(), 0b10);
    assert_eq!(sigprocmask_apply(&mut l, SIG_SETMASK, Some(SigSet::from_bits(0b100))), Ok(()));
    assert_eq!(l.get_mask().bits(), 0b100);
    assert_eq!(sigprocmask_apply(&mut l, 7, Some(SigSet::from_bits(1))), Err(EINVAL));
    assert_eq!(sigprocmask_apply(&mut l, 7, None), Ok(()));
    assert_eq!(l.get_mask().bits(), 0b100);
}

#[test]
fn rt_sigaction_checks() {
    assert_eq!(rt_sigaction_check(2, 8).unwrap().into_raw(), 2);
    assert_eq!(rt_sigaction_check(9, 8), Err(EINVAL));
    assert_eq!(rt_sigaction_check(2, 4), Err(EINVAL));
    assert_eq!(rt_sigaction_check(0, 8), Err(EINVAL));
    let mut l: SignalList<u32, u32> = SignalList::new();
    let sa = SigAction { handler: 0x4000, flags: 0, restorer: 0, mask: 0 };
    assert_eq!(rt_sigaction_set(&mut l, Signal::sigint(), sa), Ok(()));
    assert_eq!(
        l.get_action(Signal::sigint()),
        SignalAction::SimpleHandler { handler: 0x4000, restorer: None, mask: SigSet::empty() }
    );
    let bad = SigAction { handler: 0x4000, flags: SA_SIGINFO, restorer: 0, mask: 0 };
    assert_eq!(rt_sigaction_set(&mut l, Signal::sighup(), bad), Err(EINVAL));
}

#[test]
fn resource_limits() {
    assert_eq!(stack_rlimit(), RLimit { rlim_cur: 0x80_0000, rlim_max: 0x80_0000 });
    assert_eq!(prlimit_check(1, RLIMIT_STACK, None), Err(ENOSYS));
    assert_eq!(prlimit_check(0, 0, None), Err(ENOSYS));
    assert_eq!(prlimit_check(0, RLIMIT_STACK, Some(RLimit { rlim_cur: 2, rlim_max: 1 })), Err(EINVAL));
    assert_eq!(prlimit_check(0, RLIMIT_STACK, Some(RLimit { rlim_cur: 1, rlim_max: 2 })), Ok(()));
    assert_eq!(getrusage_check(0), Ok(()));
    assert_eq!(getrusage_check(1), Err(ENOSYS));
}

#[test]
fn wait_option_bits() {
    assert_eq!(wait_options(WNOHANG | WCONTINUED), (true, false, true));
    assert_eq!(wait_options(WUNTRACED), (false, true, false));
    assert_eq!(check_size(8, 8), Ok(()));
    assert_eq!(check_size(4, 8), Err(EINVAL));
}

#[test]
fn return_values_in_registers() {
    let ok: Result<u32, u32> = Ok(5);
    assert_eq!(ok.into_retval(), Some(5));
    let err: Result<u32, u32> = Err(EINVAL);
    assert_eq!(err.into_retval(), Some(usize::MAX - 21));
    assert_eq!(().into_retval(), Some(0));
    assert_eq!((-1i32).into_retval(), Some(usize::MAX));
    assert_eq!(SyscallNoReturn.into_retval(), None);
    let e: Result<SyscallNoReturn, u32> = Err(ENOENT);
    assert_eq!(e.into_retval(), Some(usize::MAX - 1));
    assert_eq!(<u32 as FromSyscallArg>::from_arg(0x1_0000_0005), 5);
    assert_eq!(<i32 as FromSyscallArg>::from_arg(usize::MAX), -1);
    assert_eq!(<usize as FromSyscallArg>::from_arg(7), 7);
}

#[test]
fn user_pointers() {
    let u = User::with_addr(0x1000);
    assert!(!u.is_null());
    assert!(User::null().is_null());
    assert_eq!(u.offset(-16).addr, 0xff0);
    assert_eq!(u.offset(16).addr, 0x1010);
    assert_eq!(CheckedUserPointer::new(0, 1), Err(EFAULT));
    assert_eq!(CheckedUserPointer::new(0x7fff_ffff_f000, 0x2000), Err(EFAULT));
    let mut p = CheckedUserPointer::new(0x1000, 0x100).unwrap();
    p.forward(0x10);
    assert_eq!(p, CheckedUserPointer { ptr: 0x1010, len: 0xf0 });
}

#[test]
fn user_buffer_fills() {
    let mut b = UserBuffer::new(0x1000, 10).unwrap();
    assert_eq!(b.remaining(), 10);
    assert_eq!(b.fill_request(4), Some((0x1000, 4)));
    assert_eq!(b.filled(4, 4), FillResult::Done(4));
    assert_eq!(b.fill_request(100), Some((0x1004, 6)));
    assert_eq!(b.filled(6, 100), FillResult::Partial(6));
    assert_eq!(b.fill_request(1), None);
    assert_eq!(UserBuffer::new(0, 1), Err(EFAULT));
}

#[test]
fn shared_memory_detaches_what_was_attached() {
    let mut areas = ShmAreas::new();
    assert_eq!(areas.detach(0x1000), Err(EINVAL));
    areas.attach(0x1000, 0x2000);
    areas.attach(0x8000, 0x1000);
    assert_eq!(areas.detach(0x1000), Ok(0x2000));
    assert_eq!(areas.detach(0x1000), Err(EINVAL));
    assert_eq!(areas.detach(0x8000), Ok(0x1000));
}

#[test]
fn umount_knows_only_mnt() {
    assert_eq!(umount(b"./mnt"), Ok(()));
    assert_eq!(umount(b"/mnt"), Err(ENOENT));
    assert_eq!(umount(b"./mnt/"), Err(ENOENT));
    assert_eq!(umount(b""), Err(ENOENT));
}

#[test]
fn tls_area_cleared_only_when_absent_and_read_only() {
    assert_eq!(tls_clear_len(true, false, false, 0x1000, 0x20), Some(0x20));
    assert_eq!(tls_clear_len(true, false, true, 0x1000, 3), Some(3 * 4096));
    assert_eq!(tls_clear_len(true, true, true, 0x1000, 3), None);
    assert_eq!(tls_clear_len(false, false, true, 0x1000, 3), None);
    assert_eq!(tls_clear_len(true, false, true, 0, 3), None);
    assert_eq!(tls_clear_len(true, false, true, 0x1000, 0), None);
    assert_eq!(tls_clear_len(true, false, true, 0x1000, u32::MAX), Some(u32::MAX as u64 * 4096));
}

#[test]
fn refused_calls_take_any_length() {
    assert_eq!(mmap_plan(1, usize::MAX, PROT_READ, MAP_PRIVATE, 0, 0), Err(EINVAL));
    assert_eq!(mmap_plan(0x1000, usize::MAX, PROT_READ, MAP_ANONYMOUS | MAP_PRIVATE, 0, 0x1000), Err(EINVAL));
    assert_eq!(munmap_len(3, usize::MAX), Err(EINVAL));
    assert_eq!(mprotect_plan(3, usize::MAX, PROT_READ), Err(EINVAL));
    assert!(matches!(Mremap::start(1, usize::MAX, usize::MAX, 0, 0), Err(EINVAL)));
    assert!(matches!(Mremap::start(0x1000, usize::MAX, 0x1000, 4, 0), Err(EINVAL)));
}

#[test]
fn copies_fit_the_checked_range() {
    let p = CheckedUserPointer::new(0x1000, 16).unwrap();
    assert_eq!(p.check_copy(16), Ok(()));
    assert_eq!(p.check_copy(0), Ok(()));
    assert_eq!(p.check_copy(17), Err(EINVAL));
}

#[test]
fn mremap_shrink_passes_the_unmap_error_and_moves_copy_all_pages() {
    let (mut m, _) = Mremap::start(0x1000, 3 * 4096, 4096, 0, 0).unwrap();
    m.step(Ok(0));
    assert_eq!(m.step(Ok(0)), MremapAction::Unmap { addr: 0x2000, len: 0x2000 });
    assert_eq!(m.step(Err(EINVAL)), MremapAction::Finish(Err(EINVAL)));

    let (mut m, _) = Mremap::start(0x1000, 4 * 4096, 8 * 4096, MREMAP_MAYMOVE, 0).unwrap();
    m.step(Ok(0));
    m.step(Ok(0));
    assert_eq!(m.step(Err(ENOMEM)), MremapAction::MapAnywhere { len: 8 * 4096 });
    let mut copies = vec![m.step(Ok(0x40000))];
    for _ in 0..3 {
        copies.push(m.step(Ok(0)));
    }
    for (k, a) in copies.iter().enumerate() {
        assert_eq!(*a, MremapAction::Copy { from: 0x1000 + k * 4096, to: 0x40000 + k * 4096, len: 4096 });
    }
    assert_eq!(m.step(Ok(0)), MremapAction::Unmap { addr: 0x1000, len: 4 * 4096 });
    assert_eq!(m.step(Ok(0)), MremapAction::Finish(Ok(0x40000)));
}
