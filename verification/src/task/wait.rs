//! Waiting for child processes: who to wait for, what happened to a child,
//! and which event a waiter gets.
use crate::errno::EINVAL;
use crate::signal::sigset::{dumps_core, Signal};
use vstd::prelude::*;

verus! {

pub const P_ALL: u32 = 0;
pub const P_PID: u32 = 1;
pub const P_PGID: u32 = 2;
pub const P_PIDFD: u32 = 3;

pub const CLD_EXITED: u32 = 1;
pub const CLD_KILLED: u32 = 2;
pub const CLD_DUMPED: u32 = 3;
pub const CLD_STOPPED: u32 = 5;
pub const CLD_CONTINUED: u32 = 6;

/// The children a wait is for.
#[derive(Clone, Copy, PartialEq, Eq, Structural, Debug)]
pub enum WaitId {
    Any,
    Pid(u32),
    Pgid(u32),
}

impl WaitId {
    /// The children selected by `waitid`'s id type and id; `EINVAL` for an
    /// unknown type. Pidfd waits are not supported.
    pub fn from_type_and_id(id_type: u32, id: u32) -> (r: Result<WaitId, u32>)
        requires
            id_type != P_PIDFD,
        ensures
            id_type == P_ALL ==> r == Ok::<WaitId, u32>(WaitId::Any),
            id_type == P_PID ==> r == Ok::<WaitId, u32>(WaitId::Pid(id)),
            id_type == P_PGID ==> r == Ok::<WaitId, u32>(WaitId::Pgid(id)),
            id_type > P_PIDFD ==> r == Err::<WaitId, u32>(EINVAL),
    {
        if id_type == P_ALL {
            Ok(WaitId::Any)
        } else if id_type == P_PID {
            Ok(WaitId::Pid(id))
        } else if id_type == P_PGID {
            Ok(WaitId::Pgid(id))
        } else {
            Err(EINVAL)
        }
    }

    /// The children selected by `wait4`'s pid: below -1 the group `-id`, -1
    /// any child, 0 the caller's own group `own_pgid`, above 0 that child.
    pub fn from_id(id: i32, own_pgid: u32) -> (r: WaitId)
        requires
            id != i32::MIN,
        ensures
            id < -1 ==> r == WaitId::Pgid((-id) as u32),
            id == -1 ==> r == WaitId::Any,
            id == 0 ==> r == WaitId::Pgid(own_pgid),
            id > 0 ==> r == WaitId::Pid(id as u32),
    {
        if id < -1 {
            WaitId::Pgid((-id) as u32)
        } else if id == -1 {
            WaitId::Any
        } else if id == 0 {
            WaitId::Pgid(own_pgid)
        } else {
            WaitId::Pid(id as u32)
        }
    }
}

/// What happened to a child.
#[derive(Clone, Copy, PartialEq, Eq, Structural, Debug)]
pub enum WaitType {
    Exited(u32),
    Signaled(Signal),
    Stopped(Signal),
    Continued,
}

/// The `wstatus` word for an event.
pub open spec fn spec_wstatus(t: WaitType) -> u32 {
    match t {
        WaitType::Exited(status) => ((status & 0xff) * 256) as u32,
        WaitType::Signaled(s) => if dumps_core(s@) {
            s@ | 0x80
        } else {
            s@
        },
        WaitType::Stopped(s) => 0x7fu32 | ((s@ * 256) as u32),
        WaitType::Continued => 0xffff,
    }
}

impl WaitType {
    /// The status word `wait4` stores: the exit status in bits 8..16; the
    /// signal number for a kill, with bit 7 set when it dumps core; 0x7f
    /// and the signal in bits 8..16 for a stop; 0xffff for a continue.
    pub fn to_wstatus(self) -> (r: u32)
        ensures
            r == spec_wstatus(self),
    {
        match self {
            WaitType::Exited(status) => {
                assert((status & 0xff) <= 0xff) by (bit_vector);
                (status & 0xff) * 256
            },
            WaitType::Signaled(s) => {
                if s.is_coredump() {
                    s.into_raw() | 0x80
                } else {
                    s.into_raw()
                }
            },
            WaitType::Stopped(s) => {
                let n = s.into_raw();
                0x7f | (n * 256)
            },
            WaitType::Continued => 0xffff,
        }
    }

    /// The status and code `waitid` stores in the signal information.
    pub fn to_status_code(self) -> (r: (u32, u32))
        ensures
            r == match self {
                WaitType::Exited(status) => (status, CLD_EXITED),
                WaitType::Signaled(s) => (s@, if dumps_core(s@) {
                    CLD_DUMPED
                } else {
                    CLD_KILLED
                }),
                WaitType::Stopped(s) => (s@, CLD_STOPPED),
                WaitType::Continued => (18u32, CLD_CONTINUED),
            },
    {
        match self {
            WaitType::Exited(status) => (status, CLD_EXITED),
            WaitType::Signaled(s) => {
                if s.is_coredump() {
                    (s.into_raw(), CLD_DUMPED)
                } else {
                    (s.into_raw(), CLD_KILLED)
                }
            },
            WaitType::Stopped(s) => (s.into_raw(), CLD_STOPPED),
            WaitType::Continued => (18, CLD_CONTINUED),
        }
    }
}

/// An event about the child `pid`.
#[derive(Clone, Copy, PartialEq, Eq, Structural, Debug)]
pub struct WaitObject {
    pub pid: u32,
    pub code: WaitType,
}

impl WaitObject {
    /// The signal that stopped the child, for a stop event.
    pub fn stopped(&self) -> (r: Option<Signal>)
        ensures
            r == match self.code {
                WaitType::Stopped(s) => Some(s),
                _ => None,
            },
    {
        match self.code {
            WaitType::Stopped(s) => Some(s),
            _ => None,
        }
    }

    /// Whether this is a continue event.
    pub fn is_continue(&self) -> (r: bool)
        ensures
            r == (self.code is Continued),
    {
        match self.code {
            WaitType::Continued => true,
            _ => false,
        }
    }
}

/// Whether a waiter wants event `o` of a child whose process group is
/// `pgid` (`None` when the child is gone from the process list).
pub open spec fn wanted(
    o: WaitObject,
    pgid: Option<u32>,
    want_stop: bool,
    want_continue: bool,
    want_id: WaitId,
) -> bool {
    &&& if o.code is Stopped {
        want_stop
    } else if o.code is Continued {
        want_continue
    } else {
        true
    }
    &&& match want_id {
        WaitId::Any => true,
        WaitId::Pid(p) => o.pid == p,
        WaitId::Pgid(g) => pgid == Some(g),
    }
}

/// The index of the first event of `events` a waiter wants; `pgids[i]` is
/// the process group of the child of event `i`. Stop and continue events
/// count only when asked for.
pub fn first_wanted(
    events: &Vec<WaitObject>,
    pgids: &Vec<Option<u32>>,
    want_stop: bool,
    want_continue: bool,
    want_id: WaitId,
) -> (r: Option<usize>)
    requires
        events@.len() == pgids@.len(),
    ensures
        r is None ==> forall|i: int|
            0 <= i < events@.len() ==> !wanted(
                #[trigger] events@[i],
                pgids@[i],
                want_stop,
                want_continue,
                want_id,
            ),
        r matches Some(i) ==> i < events@.len() && wanted(
            events@[i as int],
            pgids@[i as int],
            want_stop,
            want_continue,
            want_id,
        ) && forall|j: int|
            0 <= j < i ==> !wanted(#[trigger] events@[j], pgids@[j], want_stop, want_continue, want_id),
{
    let mut i: usize = 0;
    while i < events.len()
        invariant
            i <= events@.len(),
            events@.len() == pgids@.len(),
            forall|j: int|
                0 <= j < i ==> !wanted(#[trigger] events@[j], pgids@[j], want_stop, want_continue, want_id),
        decreases events@.len() - i,
    {
        let o = events[i];
        let kind_ok = match o.code {
            WaitType::Stopped(_) => want_stop,
            WaitType::Continued => want_continue,
            _ => true,
        };
        let id_ok = match want_id {
            WaitId::Any => true,
            WaitId::Pid(p) => o.pid == p,
            WaitId::Pgid(g) => match pgids[i] {
                Some(x) => x == g,
                None => false,
            },
        };
        if kind_ok && id_ok {
            return Some(i);
        }
        i = i + 1;
    }
    None
}

/// Take the first event a waiter wants from the queue `events`;
/// `pgids[i]` is the process group of the child of event `i`. Stop and
/// continue events count only when asked for.
pub fn take_wanted(
    events: &mut Vec<WaitObject>,
    pgids: &Vec<Option<u32>>,
    want_stop: bool,
    want_continue: bool,
    want_id: WaitId,
) -> (r: Option<WaitObject>)
    requires
        old(events)@.len() == pgids@.len(),
    ensures
        r is None ==> *final(events) == *old(events) && forall|i: int|
            0 <= i < old(events)@.len() ==> !wanted(
                #[trigger] old(events)@[i],
                pgids@[i],
                want_stop,
                want_continue,
                want_id,
            ),
        r matches Some(o) ==> exists|i: int|
            0 <= i < old(events)@.len() && old(events)@[i] == o && wanted(
                o,
                pgids@[i],
                want_stop,
                want_continue,
                want_id,
            ) && (forall|j: int|
                0 <= j < i ==> !wanted(
                    #[trigger] old(events)@[j],
                    pgids@[j],
                    want_stop,
                    want_continue,
                    want_id,
                )) && final(events)@ == old(events)@.remove(i),
{
    match first_wanted(events, pgids, want_stop, want_continue, want_id) {
        Some(i) => {
            let ghost idx = i as int;
            let taken = events.remove(i);
            assert(old(events)@[idx] == taken);
            Some(taken)
        },
        None => None,
    }
}

/// Whether an event reports the end of a child (an exit or a kill), as
/// opposed to a stop or a continue.
pub open spec fn is_exit_event(o: WaitObject) -> bool {
    !(o.code is Stopped || o.code is Continued)
}

/// The exit events of a wait list, in order.
pub open spec fn exit_events(w: Seq<WaitObject>) -> Seq<WaitObject> {
    w.filter(|o: WaitObject| is_exit_event(o))
}

/// Whether an event is passed on to the new parent of an orphan: exits and
/// kills are, stops and continues are not.
pub fn passed_to_new_parent(o: &WaitObject) -> (r: bool)
    ensures
        r == is_exit_event(*o),
{
    o.stopped().is_none() && !o.is_continue()
}

/// The events of a dying process's wait list that go to its children's new
/// parent: its exit events, in order. Each comes from the list, and when no
/// child has two exit events in the list, none has two in the result.
pub fn passed_on(events: &Vec<WaitObject>) -> (r: Vec<WaitObject>)
    ensures
        r@ == exit_events(events@),
        forall|k: int| 0 <= k < r@.len() ==> events@.contains(#[trigger] r@[k]),
        (forall|i: int, j: int|
            0 <= i < events@.len() && 0 <= j < events@.len() && is_exit_event(#[trigger] events@[i])
                && is_exit_event(#[trigger] events@[j]) && events@[i].pid == events@[j].pid ==> i == j)
            ==> forall|a: int, b: int|
            0 <= a < r@.len() && 0 <= b < r@.len() && #[trigger] r@[a].pid == #[trigger] r@[b].pid ==> a == b,
{
    let mut r: Vec<WaitObject> = Vec::new();
    let mut i: usize = 0;
    let ghost mut src: Seq<int> = Seq::empty();
    while i < events.len()
        invariant
            i <= events@.len(),
            r@ == exit_events(events@.subrange(0, i as int)),
            src.len() == r@.len(),
            forall|k: int| 0 <= k < r@.len() ==> 0 <= #[trigger] src[k] < i && events@[src[k]] == r@[k] && is_exit_event(r@[k]),
            forall|a: int, b: int| 0 <= a < b < r@.len() ==> #[trigger] src[a] < #[trigger] src[b],
        decreases events@.len() - i,
    {
        let o = events[i];
        proof {
            assert(events@.subrange(0, i + 1) =~= events@.subrange(0, i as int).push(o));
            events@.subrange(0, i as int).lemma_filter_push(o, |o: WaitObject| is_exit_event(o));
        }
        if passed_to_new_parent(&o) {
            r.push(o);
            proof {
                src = src.push(i as int);
            }
        }
        i = i + 1;
    }
    proof {
        assert(events@.subrange(0, events@.len() as int) =~= events@);
        assert forall|k: int| 0 <= k < r@.len() implies events@.contains(#[trigger] r@[k]) by {
            let j = src[k];
            assert(0 <= j < events@.len());
            assert(events@[j] == r@[k]);
        }
        assert forall|a: int, b: int|
            0 <= a < r@.len() && 0 <= b < r@.len() && #[trigger] r@[a].pid == #[trigger] r@[b].pid
                && a != b implies exists|i: int, j: int|
            #![trigger events@[i], events@[j]]
            0 <= i < events@.len() && 0 <= j < events@.len() && i != j && is_exit_event(events@[i])
                && is_exit_event(events@[j]) && events@[i].pid == events@[j].pid by {
            assert(events@[src[a]] == r@[a]);
            assert(events@[src[b]] == r@[b]);
            if a < b {
                assert(src[a] < src[b]);
            } else {
                assert(src[b] < src[a]);
            }
        }
    }
    r
}

} // verus!
