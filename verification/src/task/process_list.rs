//! The table of processes, process groups and sessions, and the rules that
//! move processes between them.
//!
//! Every process belongs to one process group and one session; the group
//! belongs to the same session. A group or a session lives as long as some
//! process belongs to it. A parent lists its children, and a child's exit
//! event sits in its parent's wait list until the parent collects it.
use crate::errno::{ECHILD, EINVAL, ENOTTY, EPERM, ESRCH};
use crate::signal::sigset::{valid_signal, Signal};
use crate::task::clone::{CloneArgs, CLONE_THREAD};
use crate::terminal::Terminal;
use crate::task::wait::{
    exit_events, first_wanted, is_exit_event, passed_on, wanted, WaitId, WaitObject, WaitType,
};
use std::collections::BTreeMap;
use vstd::prelude::*;

verus! {

broadcast use {vstd::std_specs::btree::group_btree_axioms, vstd::laws_cmp::group_laws_cmp};

/// Whether `x` is in `v`.
fn vec_has(v: &Vec<u32>, x: u32) -> (r: bool)
    ensures
        r == v@.contains(x),
{
    let mut i: usize = 0;
    while i < v.len()
        invariant
            i <= v@.len(),
            forall|k: int| 0 <= k < i ==> v@[k] != x,
        decreases v@.len() - i,
    {
        if v[i] == x {
            return true;
        }
        i = i + 1;
    }
    false
}

/// `v` with every `x` left out, the rest in order.
fn vec_without(v: &Vec<u32>, x: u32) -> (r: Vec<u32>)
    ensures
        forall|y: u32| #[trigger] r@.contains(y) <==> (v@.contains(y) && y != x),
        r@.len() <= v@.len(),
{
    let mut r: Vec<u32> = Vec::new();
    let mut i: usize = 0;
    while i < v.len()
        invariant
            i <= v@.len(),
            r@.len() <= i,
            forall|y: u32| #[trigger] r@.contains(y) <==> (v@.subrange(0, i as int).contains(y) && y != x),
        decreases v@.len() - i,
    {
        let e = v[i];
        let ghost prev = r@;
        if e != x {
            r.push(e);
        }
        proof {
            let s1 = v@.subrange(0, i as int);
            let s2 = v@.subrange(0, i + 1);
            assert(s2 =~= s1.push(e));
            assert forall|y: u32| #[trigger] r@.contains(y) <==> (s2.contains(y) && y != x) by {
                if r@.contains(y) {
                    let j = choose|j: int| 0 <= j < r@.len() && r@[j] == y;
                    if j < prev.len() {
                        assert(prev[j] == y);
                        assert(prev.contains(y));
                        let k = choose|k: int| 0 <= k < s1.len() && s1[k] == y;
                        assert(s2[k] == y);
                    } else {
                        assert(s2[s1.len() as int] == y);
                    }
                }
                if s2.contains(y) && y != x {
                    let k = choose|k: int| 0 <= k < s2.len() && s2[k] == y;
                    if k < s1.len() {
                        assert(s1[k] == y);
                        assert(prev.contains(y));
                        let j = choose|j: int| 0 <= j < prev.len() && prev[j] == y;
                        assert(r@[j] == y);
                    } else {
                        assert(r@[r@.len() - 1] == y);
                    }
                }
            }
        }
        i = i + 1;
    }
    assert(v@.subrange(0, v@.len() as int) =~= v@);
    r
}

/// A list's contents are empty exactly when it has no element.
proof fn lemma_empty_iff(v: Seq<u32>)
    ensures
        v.len() == 0 <==> forall|y: u32| !v.contains(y),
{
    if v.len() > 0 {
        assert(v.contains(v[0]));
    }
}

/// `dst` with `src` appended.
fn vec_extend<T: Copy>(dst: &mut Vec<T>, src: &Vec<T>)
    ensures
        final(dst)@ == old(dst)@ + src@,
{
    let mut i: usize = 0;
    while i < src.len()
        invariant
            i <= src@.len(),
            dst@ == old(dst)@ + src@.subrange(0, i as int),
        decreases src@.len() - i,
    {
        dst.push(src[i]);
        i = i + 1;
        assert(dst@ =~= old(dst)@ + src@.subrange(0, i as int));
    }
    assert(src@.subrange(0, src@.len() as int) =~= src@);
}

/// The index of the first `x` in `v`, which holds one.
fn vec_index_of(v: &Vec<u32>, x: u32) -> (r: usize)
    requires
        v@.contains(x),
    ensures
        r < v@.len(),
        v@[r as int] == x,
        forall|j: int| 0 <= j < r ==> v@[j] != x,
{
    let mut i: usize = 0;
    while i < v.len()
        invariant
            i <= v@.len(),
            v@.contains(x),
            forall|j: int| 0 <= j < i ==> v@[j] != x,
        decreases v@.len() - i,
    {
        if v[i] == x {
            return i;
        }
        i = i + 1;
    }
    vstd::pervasive::unreached()
}

/// Two process records agree but for their parent.
pub open spec fn same_but_parent(a: Process, b: Process) -> bool {
    &&& a.pid == b.pid
    &&& a.pgid == b.pgid
    &&& a.sid == b.sid
    &&& a.exit_signal == b.exit_signal
    &&& a.children@ == b.children@
    &&& a.threads@ == b.threads@
    &&& a.wait_list@ == b.wait_list@
}

/// A process: its place in the family, its group and session, its threads
/// and the events of its children that it has not collected yet.
pub struct Process {
    pub pid: u32,
    pub parent: Option<u32>,
    pub pgid: u32,
    pub sid: u32,
    pub exit_signal: Option<Signal>,
    pub children: Vec<u32>,
    pub threads: Vec<u32>,
    pub wait_list: Vec<WaitObject>,
}

/// A process group and its members.
pub struct ProcessGroup {
    pub pgid: u32,
    pub session: u32,
    pub processes: Vec<u32>,
}

/// A session, its process groups and its job control state.
pub struct Session {
    pub sid: u32,
    pub groups: Vec<u32>,
    pub foreground: Option<u32>,
    pub control_terminal: Option<u32>,
}

/// Every process is in a group of its session, and is its own group's and
/// session's member.
pub open spec fn procs_wf(
    procs: Map<u32, Process>,
    groups: Map<u32, ProcessGroup>,
    sessions: Map<u32, Session>,
    threads: Map<u32, u32>,
) -> bool {
    forall|p: u32|
        #[trigger] procs.contains_key(p) ==> {
            &&& procs[p].pid == p
            &&& groups.contains_key(procs[p].pgid)
            &&& groups[procs[p].pgid].processes@.contains(p)
            &&& groups[procs[p].pgid].session == procs[p].sid
            &&& sessions.contains_key(procs[p].sid)
            &&& threads.contains_key(p)
            &&& threads[p] == p
        }
}

/// Every group has members, all of them processes of the group, and is
/// listed by its session.
pub open spec fn groups_wf(
    procs: Map<u32, Process>,
    groups: Map<u32, ProcessGroup>,
    sessions: Map<u32, Session>,
) -> bool {
    forall|g: u32|
        #[trigger] groups.contains_key(g) ==> {
            &&& groups[g].pgid == g
            &&& groups[g].processes@.len() > 0
            &&& (forall|m: u32|
                #[trigger] groups[g].processes@.contains(m) ==> procs.contains_key(m) && procs[m].pgid
                    == g)
            &&& sessions.contains_key(groups[g].session)
            &&& sessions[groups[g].session].groups@.contains(g)
        }
}

/// Every session has groups, all of them groups of the session.
pub open spec fn sessions_wf(groups: Map<u32, ProcessGroup>, sessions: Map<u32, Session>) -> bool {
    forall|s: u32|
        #[trigger] sessions.contains_key(s) ==> {
            &&& sessions[s].sid == s
            &&& sessions[s].groups@.len() > 0
            &&& forall|g: u32|
                #[trigger] sessions[s].groups@.contains(g) ==> groups.contains_key(g) && groups[g].session
                    == s
        }
}

/// A parent is another process of the table and lists exactly the
/// processes whose parent it is; a process without threads has no children.
pub open spec fn family_wf(procs: Map<u32, Process>) -> bool {
    &&& forall|p: u32, c: u32|
        procs.contains_key(p) && #[trigger] procs[p].children@.contains(c) ==> procs.contains_key(c)
            && procs[c].parent == Some(p)
    &&& forall|c: u32|
        #[trigger] procs.contains_key(c) && procs[c].parent is Some ==> procs[c].parent->0 != c
            && procs.contains_key(procs[c].parent->0) && procs[procs[c].parent->0].children@.contains(c)
    &&& forall|p: u32|
        #[trigger] procs.contains_key(p) && procs[p].threads@.len() == 0 ==> procs[p].children@.len()
            == 0
}

/// An exit event in a wait list is about a child of the list's owner that
/// has no threads left, and there is one such event per child.
pub open spec fn waits_wf(procs: Map<u32, Process>) -> bool {
    forall|p: u32|
        #[trigger] procs.contains_key(p) ==> {
            &&& forall|i: int|
                0 <= i < procs[p].wait_list@.len() && is_exit_event(
                    #[trigger] procs[p].wait_list@[i],
                ) ==> {
                    let c = procs[p].wait_list@[i].pid;
                    &&& procs.contains_key(c)
                    &&& procs[c].parent == Some(p)
                    &&& procs[c].threads@.len() == 0
                }
            &&& forall|i: int, j: int|
                0 <= i < procs[p].wait_list@.len() && 0 <= j < procs[p].wait_list@.len()
                    && is_exit_event(#[trigger] procs[p].wait_list@[i]) && is_exit_event(
                    #[trigger] procs[p].wait_list@[j],
                ) && procs[p].wait_list@[i].pid == procs[p].wait_list@[j].pid ==> i == j
        }
}

/// No process lists a thread twice, and each thread it lists is one of
/// its threads in the thread table.
pub open spec fn threads_distinct(procs: Map<u32, Process>, threads: Map<u32, u32>) -> bool {
    &&& forall|p: u32| #[trigger] procs.contains_key(p) ==> procs[p].threads@.no_duplicates()
    &&& forall|p: u32, t: u32|
        procs.contains_key(p) && #[trigger] procs[p].threads@.contains(t) ==> threads.contains_key(t)
            && threads[t] == p
}

/// The scalar fields of two process records agree.
pub open spec fn same_scalars(a: Process, b: Process) -> bool {
    &&& a.pid == b.pid
    &&& a.parent == b.parent
    &&& a.pgid == b.pgid
    &&& a.sid == b.sid
    &&& a.exit_signal == b.exit_signal
}

/// Two process records agree but for their children.
pub open spec fn same_but_children(a: Process, b: Process) -> bool {
    &&& same_scalars(a, b)
    &&& a.threads@ == b.threads@
    &&& a.wait_list@ == b.wait_list@
}

/// What to make a new process of: its pid, parent, group, session and the
/// signal its parent gets when it exits. Without a group or session it
/// leads new ones.
pub struct ProcessBuilder {
    pid: Option<u32>,
    parent: Option<u32>,
    pgroup: Option<u32>,
    session: Option<u32>,
    exit_signal: Option<Signal>,
}

impl ProcessBuilder {
    pub closed spec fn spec_pid(&self) -> Option<u32> {
        self.pid
    }

    pub closed spec fn spec_parent(&self) -> Option<u32> {
        self.parent
    }

    pub closed spec fn spec_pgroup(&self) -> Option<u32> {
        self.pgroup
    }

    pub closed spec fn spec_session(&self) -> Option<u32> {
        self.session
    }

    pub closed spec fn spec_exit_signal(&self) -> Option<Signal> {
        self.exit_signal
    }

    /// The group the process will be in: the one given, else its own.
    pub open spec fn target_pgid(&self) -> u32 {
        match self.spec_pgroup() {
            Some(g) => g,
            None => self.spec_pid()->0,
        }
    }

    /// The session the process will be in: the one given, else its own.
    pub open spec fn target_sid(&self) -> u32 {
        match self.spec_session() {
            Some(s) => s,
            None => self.spec_pid()->0,
        }
    }

    /// How `build` changes the table: the new process `r`, its thread, its
    /// parent's child list, and the group and session it joins or leads.
    pub open spec fn built(&self, before: ProcessList, after: ProcessList) -> bool {
        let r = self.spec_pid()->0;
        let np = after.proc_map()[r];
        &&& after.init_pid() == before.init_pid()
        &&& after.thread_map() == before.thread_map().insert(r, r)
        &&& after.proc_map().dom() == before.proc_map().dom().insert(r)
        &&& np.pid == r
        &&& np.parent == self.spec_parent()
        &&& np.pgid == self.target_pgid()
        &&& np.sid == self.target_sid()
        &&& np.exit_signal == self.spec_exit_signal()
        &&& np.children@ == Seq::<u32>::empty()
        &&& np.threads@ == seq![r]
        &&& np.wait_list@ == Seq::<WaitObject>::empty()
        &&& forall|q: u32|
            before.proc_map().contains_key(q) && self.spec_parent() != Some(q)
                ==> #[trigger] after.proc_map()[q] == before.proc_map()[q]
        &&& (self.spec_parent() matches Some(pp) ==> {
            &&& same_but_children(after.proc_map()[pp], before.proc_map()[pp])
            &&& after.proc_map()[pp].children@ == before.proc_map()[pp].children@.push(r)
        })
        &&& (self.spec_pgroup() matches Some(g) ==> {
            &&& after.group_map().dom() == before.group_map().dom()
            &&& forall|h: u32|
                before.group_map().contains_key(h) && h != g ==> #[trigger] after.group_map()[h]
                    == before.group_map()[h]
            &&& after.group_map()[g].pgid == g
            &&& after.group_map()[g].session == before.group_map()[g].session
            &&& after.group_map()[g].processes@ == before.group_map()[g].processes@.push(r)
        })
        &&& (self.spec_pgroup() is None ==> {
            &&& after.group_map().dom() == before.group_map().dom().insert(r)
            &&& forall|h: u32|
                #[trigger] before.group_map().contains_key(h) ==> after.group_map()[h]
                    == before.group_map()[h]
            &&& after.group_map()[r].pgid == r
            &&& after.group_map()[r].session == self.target_sid()
            &&& after.group_map()[r].processes@ == seq![r]
        })
        &&& (self.spec_session() is None ==> {
            &&& after.session_map().dom() == before.session_map().dom().insert(r)
            &&& forall|t: u32|
                #[trigger] before.session_map().contains_key(t) ==> after.session_map()[t]
                    == before.session_map()[t]
            &&& after.session_map()[r].sid == r
            &&& after.session_map()[r].groups@ == seq![r]
            &&& after.session_map()[r].foreground is None
            &&& after.session_map()[r].control_terminal is None
        })
        &&& (self.spec_session() matches Some(s) ==> self.spec_pgroup() is None ==> {
            &&& after.session_map().dom() == before.session_map().dom()
            &&& forall|t: u32|
                before.session_map().contains_key(t) && t != s ==> #[trigger] after.session_map()[t]
                    == before.session_map()[t]
            &&& after.session_map()[s].sid == s
            &&& after.session_map()[s].foreground == before.session_map()[s].foreground
            &&& after.session_map()[s].control_terminal == before.session_map()[s].control_terminal
            &&& after.session_map()[s].groups@ == before.session_map()[s].groups@.push(r)
        })
        &&& (self.spec_pgroup() is Some ==> after.session_map() == before.session_map())
    }

    /// A builder with nothing set.
    pub fn new() -> (r: ProcessBuilder)
        ensures
            r.spec_pid() is None,
            r.spec_parent() is None,
            r.spec_pgroup() is None,
            r.spec_session() is None,
            r.spec_exit_signal() is None,
    {
        ProcessBuilder { pid: None, parent: None, pgroup: None, session: None, exit_signal: None }
    }

    /// Set the pid.
    pub fn pid(self, pid: u32) -> (r: ProcessBuilder)
        ensures
            r.spec_pid() == Some(pid),
            r.spec_parent() == self.spec_parent(),
            r.spec_pgroup() == self.spec_pgroup(),
            r.spec_session() == self.spec_session(),
            r.spec_exit_signal() == self.spec_exit_signal(),
    {
        ProcessBuilder { pid: Some(pid), ..self }
    }

    /// Set the parent.
    pub fn parent(self, parent: u32) -> (r: ProcessBuilder)
        ensures
            r.spec_pid() == self.spec_pid(),
            r.spec_parent() == Some(parent),
            r.spec_pgroup() == self.spec_pgroup(),
            r.spec_session() == self.spec_session(),
            r.spec_exit_signal() == self.spec_exit_signal(),
    {
        ProcessBuilder { parent: Some(parent), ..self }
    }

    /// Set the process group to join.
    pub fn pgroup(self, pgid: u32) -> (r: ProcessBuilder)
        ensures
            r.spec_pid() == self.spec_pid(),
            r.spec_parent() == self.spec_parent(),
            r.spec_pgroup() == Some(pgid),
            r.spec_session() == self.spec_session(),
            r.spec_exit_signal() == self.spec_exit_signal(),
    {
        ProcessBuilder { pgroup: Some(pgid), ..self }
    }

    /// Set the session to join.
    pub fn session(self, sid: u32) -> (r: ProcessBuilder)
        ensures
            r.spec_pid() == self.spec_pid(),
            r.spec_parent() == self.spec_parent(),
            r.spec_pgroup() == self.spec_pgroup(),
            r.spec_session() == Some(sid),
            r.spec_exit_signal() == self.spec_exit_signal(),
    {
        ProcessBuilder { session: Some(sid), ..self }
    }

    /// Set the signal the parent gets on exit.
    pub fn exit_signal(self, exit_signal: Signal) -> (r: ProcessBuilder)
        ensures
            r.spec_pid() == self.spec_pid(),
            r.spec_parent() == self.spec_parent(),
            r.spec_pgroup() == self.spec_pgroup(),
            r.spec_session() == self.spec_session(),
            r.spec_exit_signal() == Some(exit_signal),
    {
        ProcessBuilder { exit_signal: Some(exit_signal), ..self }
    }

    /// Whether `list` can take the process: the pid is set and free, a
    /// given group belongs to the given session, a group or session the
    /// process would lead does not exist yet, and a given parent is a live
    /// process of the table.
    pub open spec fn fits(&self, list: ProcessList) -> bool {
        &&& self.spec_pid() is Some
        &&& !list.proc_map().contains_key(self.spec_pid()->0)
        &&& !list.thread_map().contains_key(self.spec_pid()->0)
        &&& (self.spec_pgroup() matches Some(g) ==> self.spec_session() is Some
            && list.group_map().contains_key(g) && list.group_map()[g].session
            == self.spec_session()->0)
        &&& (self.spec_pgroup() is None ==> !list.group_map().contains_key(self.spec_pid()->0))
        &&& (self.spec_session() matches Some(s) ==> list.session_map().contains_key(s))
        &&& (self.spec_session() is None ==> !list.session_map().contains_key(self.spec_pid()->0))
        &&& (self.spec_parent() matches Some(pp) ==> list.proc_map().contains_key(pp)
            && list.proc_map()[pp].threads@.len() > 0)
    }

    /// Put the process in `list`, with one thread whose tid is its pid, in
    /// the given group and session or in new ones that it leads, as a child
    /// of the given parent. Returns the pid.
    #[verifier::rlimit(60)]
    pub fn build(self, list: &mut ProcessList) -> (r: u32)
        requires
            old(list).wf(),
            self.fits(*old(list)),
        ensures
            r == self.spec_pid()->0,
            final(list).wf(),
            self.built(*old(list), *final(list)),
    {
        let pid = match self.pid {
            Some(p) => p,
            None => vstd::pervasive::unreached(),
        };
        let sid = match self.session {
            Some(s) => s,
            None => pid,
        };
        let pgid = match self.pgroup {
            Some(g) => g,
            None => pid,
        };
        let ghost l0 = *list;
        let mut threads: Vec<u32> = Vec::new();
        threads.push(pid);
        let process = Process {
            pid,
            parent: self.parent,
            pgid,
            sid,
            exit_signal: self.exit_signal,
            children: Vec::new(),
            threads,
            wait_list: Vec::new(),
        };
        list.threads.insert(pid, pid);
        list.processes.insert(pid, process);
        if self.session.is_none() {
            list.sessions.insert(
                pid,
                Session { sid: pid, groups: Vec::new(), foreground: None, control_terminal: None },
            );
        }
        match self.pgroup {
            Some(g) => {
                let mut grp = match list.pgroups.remove(&g) {
                    Some(x) => x,
                    None => vstd::pervasive::unreached(),
                };
                grp.processes.push(pid);
                list.pgroups.insert(g, grp);
            },
            None => {
                let mut members: Vec<u32> = Vec::new();
                members.push(pid);
                list.pgroups.insert(pid, ProcessGroup { pgid: pid, session: sid, processes: members });
                let mut sess = match list.sessions.remove(&sid) {
                    Some(x) => x,
                    None => vstd::pervasive::unreached(),
                };
                sess.groups.push(pid);
                list.sessions.insert(sid, sess);
            },
        }
        if let Some(pp) = self.parent {
            let mut par = match list.processes.remove(&pp) {
                Some(x) => x,
                None => vstd::pervasive::unreached(),
            };
            par.children.push(pid);
            list.processes.insert(pp, par);
        }
        proof {
            lemma_build_wf(l0, *list, self, pid);
        }
        pid
    }
}

/// A build keeps the table consistent.
proof fn lemma_build_wf(l0: ProcessList, l1: ProcessList, b: ProcessBuilder, pid: u32)
    requires
        l0.wf(),
        b.fits(l0),
        b.spec_pid() == Some(pid),
        b.built(l0, l1),
    ensures
        l1.wf(),
{
    let p0 = l0.proc_map();
    let p1 = l1.proc_map();
    let g0 = l0.group_map();
    let g1 = l1.group_map();
    let s0 = l0.session_map();
    let s1 = l1.session_map();
    let t1 = l1.thread_map();
    assert forall|p: u32| #[trigger] p1.contains_key(p) implies {
        &&& p1[p].pid == p
        &&& g1.contains_key(p1[p].pgid)
        &&& g1[p1[p].pgid].processes@.contains(p)
        &&& g1[p1[p].pgid].session == p1[p].sid
        &&& s1.contains_key(p1[p].sid)
        &&& t1.contains_key(p)
        &&& t1[p] == p
    } by {
        if p == pid {
            assert(g1[p1[p].pgid].processes@.last() == pid);
        } else {
            assert(p0.contains_key(p));
            assert(p1[p].pgid == p0[p].pgid);
            let g = p0[p].pgid;
            assert(g0[g].processes@.contains(p));
            if b.spec_pgroup() == Some(g) {
                let k = choose|k: int| 0 <= k < g0[g].processes@.len() && g0[g].processes@[k] == p;
                assert(g1[g].processes@[k] == p);
            }
        }
    }
    assert forall|g: u32| #[trigger] g1.contains_key(g) implies {
        &&& g1[g].pgid == g
        &&& g1[g].processes@.len() > 0
        &&& (forall|m: u32|
            #[trigger] g1[g].processes@.contains(m) ==> p1.contains_key(m) && p1[m].pgid == g)
        &&& s1.contains_key(g1[g].session)
        &&& s1[g1[g].session].groups@.contains(g)
    } by {
        assert forall|m: u32| #[trigger] g1[g].processes@.contains(m) implies p1.contains_key(m)
            && p1[m].pgid == g by {
            if m != pid {
                if b.spec_pgroup() == Some(g) {
                    let k = choose|k: int| 0 <= k < g1[g].processes@.len() && g1[g].processes@[k] == m;
                    assert(g0[g].processes@[k] == m);
                }
                assert(g0[g].processes@.contains(m));
            } else {
                if b.spec_pgroup() != Some(g) && g != pid {
                    assert(g0[g].processes@.contains(m));
                }
            }
        }
        if g != pid || b.spec_pgroup() is Some {
            assert(g0.contains_key(g));
            let s = g0[g].session;
            assert(s0[s].groups@.contains(g));
            if b.spec_session() == Some(s) && b.spec_pgroup() is None {
                let k = choose|k: int| 0 <= k < s0[s].groups@.len() && s0[s].groups@[k] == g;
                assert(s1[s].groups@[k] == g);
            }
        } else {
            assert(s1[g1[g].session].groups@.last() == g);
        }
    }
    assert forall|s: u32| #[trigger] s1.contains_key(s) implies {
        &&& s1[s].sid == s
        &&& s1[s].groups@.len() > 0
        &&& forall|g: u32| #[trigger] s1[s].groups@.contains(g) ==> g1.contains_key(g) && g1[g].session == s
    } by {
        assert forall|g: u32| #[trigger] s1[s].groups@.contains(g) implies g1.contains_key(g) && g1[g].session == s by {
            if g != pid || b.spec_pgroup() is Some {
                if b.spec_session() == Some(s) && b.spec_pgroup() is None {
                    let k = choose|k: int| 0 <= k < s1[s].groups@.len() && s1[s].groups@[k] == g;
                    assert(s0[s].groups@[k] == g);
                }
                if !(b.spec_session() is None && s == pid) {
                    assert(s0[s].groups@.contains(g));
                }
            }
        }
    }
    assert forall|p: u32, c: u32| p1.contains_key(p) && #[trigger] p1[p].children@.contains(c) implies p1.contains_key(c)
        && p1[c].parent == Some(p) by {
        if p != pid {
            if b.spec_parent() == Some(p) {
                if c != pid {
                    let k = choose|k: int| 0 <= k < p1[p].children@.len() && p1[p].children@[k] == c;
                    assert(p0[p].children@[k] == c);
                }
            }
            if c != pid {
                assert(p0[p].children@.contains(c));
            }
        }
    }
    assert forall|c: u32| #[trigger] p1.contains_key(c) && p1[c].parent is Some implies p1[c].parent->0 != c && p1.contains_key(
        p1[c].parent->0) && p1[p1[c].parent->0].children@.contains(c) by {
        let pp = p1[c].parent->0;
        if c == pid {
            assert(p1[pp].children@.last() == pid);
        } else {
            assert(p0[pp].children@.contains(c));
            if b.spec_parent() == Some(pp) {
                let k = choose|k: int| 0 <= k < p0[pp].children@.len() && p0[pp].children@[k] == c;
                assert(p1[pp].children@[k] == c);
            }
        }
    }
    assert forall|p: u32| #[trigger] p1.contains_key(p) && p1[p].threads@.len() == 0 implies p1[p].children@.len() == 0 by {
        assert(p != pid);
        if b.spec_parent() == Some(p) {
            assert(p1[p].threads@ == p0[p].threads@);
        }
    }
    assert forall|p: u32| #[trigger] p1.contains_key(p) implies {
        &&& forall|i: int|
            0 <= i < p1[p].wait_list@.len() && is_exit_event(#[trigger] p1[p].wait_list@[i]) ==> {
                let c = p1[p].wait_list@[i].pid;
                &&& p1.contains_key(c)
                &&& p1[c].parent == Some(p)
                &&& p1[c].threads@.len() == 0
            }
        &&& forall|i: int, j: int|
            0 <= i < p1[p].wait_list@.len() && 0 <= j < p1[p].wait_list@.len() && is_exit_event(
                #[trigger] p1[p].wait_list@[i],
            ) && is_exit_event(#[trigger] p1[p].wait_list@[j]) && p1[p].wait_list@[i].pid
                == p1[p].wait_list@[j].pid ==> i == j
    } by {
        if p != pid {
            assert(p1[p].wait_list@ == p0[p].wait_list@);
            assert forall|i: int| 0 <= i < p1[p].wait_list@.len() && is_exit_event(#[trigger] p1[p].wait_list@[i]) implies {
                let c = p1[p].wait_list@[i].pid;
                &&& p1.contains_key(c)
                &&& p1[c].parent == Some(p)
                &&& p1[c].threads@.len() == 0
            } by {
                let c = p0[p].wait_list@[i].pid;
                assert(p0.contains_key(c));
                assert(c != pid);
                if b.spec_parent() == Some(c) {
                    assert(p1[c].threads@ == p0[c].threads@);
                }
            }
        }
    }
    let t0 = l0.thread_map();
    let t1 = l1.thread_map();
    assert forall|p: u32| #[trigger] p1.contains_key(p) implies p1[p].threads@.no_duplicates() by {
        if p != pid {
            assert(p1[p].threads@ == p0[p].threads@);
        }
    }
    assert forall|p: u32, t: u32| p1.contains_key(p) && #[trigger] p1[p].threads@.contains(t) implies t1.contains_key(t)
        && t1[t] == p by {
        if p != pid {
            assert(p1[p].threads@ == p0[p].threads@);
            assert(t0.contains_key(t) && t0[t] == p);
            assert(t != pid);
        } else {
            assert(p1[p].threads@ == seq![pid]);
            assert(t == pid);
        }
    }
}


/// How taking process `pid` out of its group changes the table: the group
/// loses it; a group left empty goes, and leaves its session; a session
/// left without groups goes. The processes themselves are untouched.
pub open spec fn detached(before: ProcessList, after: ProcessList, pid: u32) -> bool {
    let g = before.proc_map()[pid].pgid;
    let s = before.group_map()[g].session;
    let gm = before.group_map()[g].processes@;
    let sg = before.session_map()[s].groups@;
    &&& after.proc_map() == before.proc_map()
    &&& after.thread_map() == before.thread_map()
    &&& after.init_pid() == before.init_pid()
    &&& if exists|y: u32| gm.contains(y) && y != pid {
        &&& after.group_map().dom() == before.group_map().dom()
        &&& forall|h: u32|
            before.group_map().contains_key(h) && h != g ==> #[trigger] after.group_map()[h]
                == before.group_map()[h]
        &&& after.group_map()[g].pgid == g
        &&& after.group_map()[g].session == s
        &&& forall|y: u32| #[trigger] after.group_map()[g].processes@.contains(y) <==> (gm.contains(y) && y != pid)
        &&& after.group_map()[g].processes@.len() > 0
        &&& after.session_map() == before.session_map()
    } else {
        &&& after.group_map() == before.group_map().remove(g)
        &&& if exists|h: u32| sg.contains(h) && h != g {
            &&& after.session_map().dom() == before.session_map().dom()
            &&& forall|t: u32|
                before.session_map().contains_key(t) && t != s ==> #[trigger] after.session_map()[t]
                    == before.session_map()[t]
            &&& after.session_map()[s].sid == s
            &&& after.session_map()[s].foreground == before.session_map()[s].foreground
            &&& after.session_map()[s].control_terminal == before.session_map()[s].control_terminal
            &&& forall|h: u32| #[trigger] after.session_map()[s].groups@.contains(h) <==> (sg.contains(h) && h != g)
            &&& after.session_map()[s].groups@.len() > 0
        } else {
            after.session_map() == before.session_map().remove(s)
        }
    }
}

/// Two process records agree but for their group.
pub open spec fn same_but_pgid(a: Process, b: Process) -> bool {
    &&& a.pid == b.pid
    &&& a.parent == b.parent
    &&& a.sid == b.sid
    &&& a.exit_signal == b.exit_signal
    &&& a.children@ == b.children@
    &&& a.threads@ == b.threads@
    &&& a.wait_list@ == b.wait_list@
}

/// Whether `setpgid` refuses to move process `pid` to group `pgid`: a
/// session leader stays in its group; an existing group must be of the same
/// session; a new group can only be led by the process itself.
pub open spec fn setpgid_refused(l: ProcessList, pid: u32, pgid: u32) -> bool {
    let p = l.proc_map()[pid];
    ||| p.sid == pid
    ||| (l.group_map().contains_key(pgid) && l.group_map()[pgid].session != p.sid)
    ||| (!l.group_map().contains_key(pgid) && pgid != pid)
}

/// The table after process `pid` moved to group `pgid`: only its group
/// changed; the groups and sessions follow from the table staying
/// consistent, and surviving sessions keep their job control state.
pub open spec fn regrouped(before: ProcessList, after: ProcessList, pid: u32, pgid: u32) -> bool {
    &&& after.proc_map().dom() == before.proc_map().dom()
    &&& forall|q: u32|
        before.proc_map().contains_key(q) && q != pid ==> #[trigger] after.proc_map()[q]
            == before.proc_map()[q]
    &&& same_but_pgid(after.proc_map()[pid], before.proc_map()[pid])
    &&& after.proc_map()[pid].pgid == pgid
    &&& after.thread_map() == before.thread_map()
    &&& after.init_pid() == before.init_pid()
    &&& forall|t: u32|
        before.session_map().contains_key(t) && #[trigger] after.session_map().contains_key(t)
            ==> after.session_map()[t].foreground == before.session_map()[t].foreground
            && after.session_map()[t].control_terminal == before.session_map()[t].control_terminal
}

/// The table after process `pid` was added to group `pgid` of its session,
/// a new group led by it when there was none.
pub open spec fn joined(before: ProcessList, after: ProcessList, pid: u32, pgid: u32) -> bool {
    let s = before.proc_map()[pid].sid;
    &&& after.proc_map() == before.proc_map()
    &&& after.thread_map() == before.thread_map()
    &&& after.init_pid() == before.init_pid()
    &&& if before.group_map().contains_key(pgid) {
        &&& after.group_map().dom() == before.group_map().dom()
        &&& forall|h: u32|
            before.group_map().contains_key(h) && h != pgid ==> #[trigger] after.group_map()[h]
                == before.group_map()[h]
        &&& after.group_map()[pgid].pgid == pgid
        &&& after.group_map()[pgid].session == before.group_map()[pgid].session
        &&& after.group_map()[pgid].processes@ == before.group_map()[pgid].processes@.push(pid)
        &&& after.session_map() == before.session_map()
    } else {
        &&& after.group_map().dom() == before.group_map().dom().insert(pgid)
        &&& forall|h: u32|
            #[trigger] before.group_map().contains_key(h) ==> after.group_map()[h]
                == before.group_map()[h]
        &&& after.group_map()[pgid].pgid == pgid
        &&& after.group_map()[pgid].session == s
        &&& after.group_map()[pgid].processes@ == seq![pid]
        &&& after.session_map().dom() == before.session_map().dom()
        &&& forall|t: u32|
            before.session_map().contains_key(t) && t != s ==> #[trigger] after.session_map()[t]
                == before.session_map()[t]
        &&& after.session_map()[s].sid == s
        &&& after.session_map()[s].foreground == before.session_map()[s].foreground
        &&& after.session_map()[s].control_terminal == before.session_map()[s].control_terminal
        &&& after.session_map()[s].groups@ == before.session_map()[s].groups@.push(pgid)
    }
}

/// The table after the record of process `pid` got group `pgid`, nothing
/// else changing.
pub open spec fn pgid_set(before: ProcessList, after: ProcessList, pid: u32, pgid: u32) -> bool {
    &&& after.proc_map().dom() == before.proc_map().dom()
    &&& forall|q: u32|
        before.proc_map().contains_key(q) && q != pid ==> #[trigger] after.proc_map()[q]
            == before.proc_map()[q]
    &&& same_but_pgid(after.proc_map()[pid], before.proc_map()[pid])
    &&& after.proc_map()[pid].pgid == pgid
    &&& after.group_map() == before.group_map()
    &&& after.session_map() == before.session_map()
    &&& after.thread_map() == before.thread_map()
    &&& after.init_pid() == before.init_pid()
}

/// Joining a group of the same session, leaving the old one and recording
/// the new group keeps the table consistent.
proof fn lemma_regroup_wf(
    l0: ProcessList,
    l1: ProcessList,
    l2: ProcessList,
    l3: ProcessList,
    pid: u32,
    pgid: u32,
)
    requires
        l0.wf(),
        l0.proc_map().contains_key(pid),
        !setpgid_refused(l0, pid, pgid),
        pgid != l0.proc_map()[pid].pgid,
        joined(l0, l1, pid, pgid),
        detached(l1, l2, pid),
        pgid_set(l2, l3, pid, pgid),
    ensures
        l3.wf(),
        regrouped(l0, l3, pid, pgid),
{
    let p0 = l0.proc_map();
    let p3 = l3.proc_map();
    let g0 = l0.group_map();
    let g1 = l1.group_map();
    let g3 = l3.group_map();
    let s0 = l0.session_map();
    let s1 = l1.session_map();
    let s3 = l3.session_map();
    let g = p0[pid].pgid;
    let s = p0[pid].sid;
    assert(g0[g].session == s);
    assert(g1[g] == g0[g]);
    let kept = exists|y: u32| g1[g].processes@.contains(y) && y != pid;
    assert(g1.contains_key(pgid) && g1[pgid].session == s);
    assert(s1[s].groups@.contains(pgid)) by {
        if g0.contains_key(pgid) {
            assert(s0[s].groups@.contains(pgid));
        } else {
            assert(s1[s].groups@.last() == pgid);
        }
    }
    assert forall|h: u32| #[trigger] g1.contains_key(h) && h != g implies g3.contains_key(h) && g3[h] == g1[h] by {
        if !kept {
            assert(l2.group_map() == g1.remove(g));
        }
    }
    assert(g3.contains_key(g) <==> kept);
    assert(s3.contains_key(s));
    assert(!kept ==> (forall|x: u32| #[trigger] s3[s].groups@.contains(x) <==> s1[s].groups@.contains(x) && x != g)) by {
        if !kept {
            assert(s1[s].groups@.contains(pgid) && pgid != g);
        }
    }
    assert(kept ==> s3 == s1);
    assert forall|t: u32| #[trigger] s1.contains_key(t) && t != s implies s3.contains_key(t) && s3[t] == s1[t] by {}
    assert forall|p: u32| #[trigger] p3.contains_key(p) implies {
        &&& p3[p].pid == p
        &&& g3.contains_key(p3[p].pgid)
        &&& g3[p3[p].pgid].processes@.contains(p)
        &&& g3[p3[p].pgid].session == p3[p].sid
        &&& s3.contains_key(p3[p].sid)
        &&& l3.thread_map().contains_key(p)
        &&& l3.thread_map()[p] == p
    } by {
        if p == pid {
            assert(g1[pgid].processes@.contains(pid)) by {
                assert(g1[pgid].processes@.last() == pid);
            }
            assert(g3[pgid] == g1[pgid]);
        } else {
            let h = p0[p].pgid;
            assert(g0[h].processes@.contains(p));
            if h == pgid {
                let k = choose|k: int| 0 <= k < g0[h].processes@.len() && g0[h].processes@[k] == p;
                assert(g1[h].processes@[k] == p);
                assert(g3[h] == g1[h]);
            } else if h == g {
                assert(g1[g].processes@.contains(p));
                assert(kept);
                assert(g3[g].processes@.contains(p));
            } else {
                assert(g1[h] == g0[h]);
                assert(g3[h] == g1[h]);
            }
            assert(s0.contains_key(p0[p].sid));
        }
    }
    assert forall|h: u32| #[trigger] g3.contains_key(h) implies {
        &&& g3[h].pgid == h
        &&& g3[h].processes@.len() > 0
        &&& (forall|m: u32| #[trigger] g3[h].processes@.contains(m) ==> p3.contains_key(m) && p3[m].pgid == h)
        &&& s3.contains_key(g3[h].session)
        &&& s3[g3[h].session].groups@.contains(h)
    } by {
        if h == g {
            assert forall|m: u32| #[trigger] g3[h].processes@.contains(m) implies p3.contains_key(m) && p3[m].pgid == h by {
                assert(g0[g].processes@.contains(m));
            }
            assert(s1[s].groups@.contains(g)) by {
                assert(s0[s].groups@.contains(g));
                if !g0.contains_key(pgid) {
                    let k = choose|k: int| 0 <= k < s0[s].groups@.len() && s0[s].groups@[k] == g;
                    assert(s1[s].groups@[k] == g);
                }
            }
        } else if h == pgid {
            assert forall|m: u32| #[trigger] g3[h].processes@.contains(m) implies p3.contains_key(m) && p3[m].pgid == h by {
                if m != pid {
                    assert(g1[h].processes@.contains(m));
                    if g0.contains_key(pgid) {
                        let k = choose|k: int| 0 <= k < g1[h].processes@.len() && g1[h].processes@[k] == m;
                        assert(g0[h].processes@[k] == m);
                        assert(g0[h].processes@.contains(m));
                        assert(p0[m].pgid == h);
                    } else {
                        let k = choose|k: int| 0 <= k < g1[h].processes@.len() && g1[h].processes@[k] == m;
                        assert(g1[h].processes@[k] == pid);
                    }
                }
            }
            assert(s1[s].groups@.contains(pgid)) by {
                if g0.contains_key(pgid) {
                    assert(s0[s].groups@.contains(pgid));
                } else {
                    assert(s1[s].groups@.last() == pgid);
                }
            }
            assert(s1.contains_key(s));
            if !kept {
                if exists|x: u32| s1[s].groups@.contains(x) && x != g {
                    assert(s3[s].groups@.contains(pgid));
                } else {
                    assert(false);
                }
            }
        } else {
            assert(g0.contains_key(h));
            assert(g3[h] == g0[h]);
            assert forall|m: u32| #[trigger] g3[h].processes@.contains(m) implies p3.contains_key(m) && p3[m].pgid == h by {
                assert(g0[h].processes@.contains(m));
            }
            let t = g0[h].session;
            assert(s0[t].groups@.contains(h));
            if t == s {
                if !g0.contains_key(pgid) {
                    let k = choose|k: int| 0 <= k < s0[s].groups@.len() && s0[s].groups@[k] == h;
                    assert(s1[s].groups@[k] == h);
                }
                assert(s1[s].groups@.contains(h));
            } else {
                assert(s1[t] == s0[t]);
            }
        }
    }
    assert forall|t: u32| #[trigger] s3.contains_key(t) implies {
        &&& s3[t].sid == t
        &&& s3[t].groups@.len() > 0
        &&& forall|h: u32| #[trigger] s3[t].groups@.contains(h) ==> g3.contains_key(h) && g3[h].session == t
    } by {
        assert forall|h: u32| #[trigger] s3[t].groups@.contains(h) implies g3.contains_key(h) && g3[h].session == t by {
            assert(s1[t].groups@.contains(h));
            if t == s && h == pgid {
            } else if h == g && !kept {
                assert(false);
            } else if h != pgid {
                if t == s && !g0.contains_key(pgid) {
                    let k = choose|k: int| 0 <= k < s1[s].groups@.len() && s1[s].groups@[k] == h;
                    assert(s0[s].groups@[k] == h);
                }
                assert(s0[t].groups@.contains(h));
            } else {
                assert(g1[pgid].session == s);
                if g0.contains_key(pgid) {
                    assert(s0[t].groups@.contains(pgid));
                }
            }
        }
    }
    assert forall|p: u32, c: u32| p3.contains_key(p) && #[trigger] p3[p].children@.contains(c) implies p3.contains_key(c)
        && p3[c].parent == Some(p) by {
        assert(p0[p].children@.contains(c));
    }
    assert forall|c: u32| #[trigger] p3.contains_key(c) && p3[c].parent is Some implies p3[c].parent->0 != c && p3.contains_key(
        p3[c].parent->0) && p3[p3[c].parent->0].children@.contains(c) by {
        assert(p0[p0[c].parent->0].children@.contains(c));
    }
    assert forall|p: u32| #[trigger] p3.contains_key(p) && p3[p].threads@.len() == 0 implies p3[p].children@.len() == 0 by {
        assert(p0.contains_key(p));
    }
    assert forall|p: u32| #[trigger] p3.contains_key(p) implies {
        &&& forall|i: int|
            0 <= i < p3[p].wait_list@.len() && is_exit_event(#[trigger] p3[p].wait_list@[i]) ==> {
                let c = p3[p].wait_list@[i].pid;
                &&& p3.contains_key(c)
                &&& p3[c].parent == Some(p)
                &&& p3[c].threads@.len() == 0
            }
        &&& forall|i: int, j: int|
            0 <= i < p3[p].wait_list@.len() && 0 <= j < p3[p].wait_list@.len() && is_exit_event(
                #[trigger] p3[p].wait_list@[i],
            ) && is_exit_event(#[trigger] p3[p].wait_list@[j]) && p3[p].wait_list@[i].pid
                == p3[p].wait_list@[j].pid ==> i == j
    } by {
        assert(p3[p].wait_list@ == p0[p].wait_list@);
        assert forall|i: int| 0 <= i < p3[p].wait_list@.len() && is_exit_event(#[trigger] p3[p].wait_list@[i]) implies {
            let c = p3[p].wait_list@[i].pid;
            &&& p3.contains_key(c)
            &&& p3[c].parent == Some(p)
            &&& p3[c].threads@.len() == 0
        } by {
            assert(p0[p].wait_list@[i] == p3[p].wait_list@[i]);
        }
    }
    assert forall|t: u32| s0.contains_key(t) && #[trigger] s3.contains_key(t) implies s3[t].foreground
        == s0[t].foreground && s3[t].control_terminal == s0[t].control_terminal by {
        if t == s && !g0.contains_key(pgid) {
        } else {
            assert(s1[t] == s0[t]);
        }
    }
}

/// Whether `setsid` by process `pid` would leave a group behind that
/// still names it: the group `pid` exists with other members.
pub open spec fn setsid_fits(l: ProcessList, pid: u32) -> bool {
    l.group_map().contains_key(pid) ==> forall|y: u32| #[trigger] l.group_map()[pid].processes@.contains(y) ==> y == pid
}

/// The table after process `pid` started a session: it leads a new session
/// and a new group of that session, both with the pid's number and nothing
/// else in them; the rest follows from the table staying consistent.
pub open spec fn resettled(before: ProcessList, after: ProcessList, pid: u32) -> bool {
    &&& after.proc_map().dom() == before.proc_map().dom()
    &&& forall|q: u32|
        before.proc_map().contains_key(q) && q != pid ==> #[trigger] after.proc_map()[q]
            == before.proc_map()[q]
    &&& after.proc_map()[pid].pid == pid
    &&& after.proc_map()[pid].parent == before.proc_map()[pid].parent
    &&& after.proc_map()[pid].exit_signal == before.proc_map()[pid].exit_signal
    &&& after.proc_map()[pid].children@ == before.proc_map()[pid].children@
    &&& after.proc_map()[pid].threads@ == before.proc_map()[pid].threads@
    &&& after.proc_map()[pid].wait_list@ == before.proc_map()[pid].wait_list@
    &&& after.proc_map()[pid].pgid == pid
    &&& after.proc_map()[pid].sid == pid
    &&& after.thread_map() == before.thread_map()
    &&& after.init_pid() == before.init_pid()
    &&& after.session_map().contains_key(pid)
    &&& after.session_map()[pid].foreground is None
    &&& after.session_map()[pid].control_terminal is None
    &&& forall|t: u32|
        before.session_map().contains_key(t) && #[trigger] after.session_map().contains_key(t)
            ==> after.session_map()[t].foreground == before.session_map()[t].foreground
            && after.session_map()[t].control_terminal == before.session_map()[t].control_terminal
}

/// The table after a new session `pid` with a new group `pid` in it, whose
/// only member is process `pid`, were added.
pub open spec fn founded(before: ProcessList, after: ProcessList, pid: u32) -> bool {
    &&& after.proc_map() == before.proc_map()
    &&& after.thread_map() == before.thread_map()
    &&& after.init_pid() == before.init_pid()
    &&& after.group_map().dom() == before.group_map().dom().insert(pid)
    &&& forall|h: u32| #[trigger] before.group_map().contains_key(h) ==> after.group_map()[h] == before.group_map()[h]
    &&& after.group_map()[pid].pgid == pid
    &&& after.group_map()[pid].session == pid
    &&& after.group_map()[pid].processes@ == seq![pid]
    &&& after.session_map().dom() == before.session_map().dom().insert(pid)
    &&& forall|t: u32| #[trigger] before.session_map().contains_key(t) ==> after.session_map()[t] == before.session_map()[t]
    &&& after.session_map()[pid].sid == pid
    &&& after.session_map()[pid].groups@ == seq![pid]
    &&& after.session_map()[pid].foreground is None
    &&& after.session_map()[pid].control_terminal is None
}

/// The table after the record of process `pid` got group and session
/// `pid`, nothing else changing.
pub open spec fn leader_set(before: ProcessList, after: ProcessList, pid: u32) -> bool {
    &&& after.proc_map().dom() == before.proc_map().dom()
    &&& forall|q: u32|
        before.proc_map().contains_key(q) && q != pid ==> #[trigger] after.proc_map()[q]
            == before.proc_map()[q]
    &&& after.proc_map()[pid].pid == before.proc_map()[pid].pid
    &&& after.proc_map()[pid].parent == before.proc_map()[pid].parent
    &&& after.proc_map()[pid].exit_signal == before.proc_map()[pid].exit_signal
    &&& after.proc_map()[pid].children@ == before.proc_map()[pid].children@
    &&& after.proc_map()[pid].threads@ == before.proc_map()[pid].threads@
    &&& after.proc_map()[pid].wait_list@ == before.proc_map()[pid].wait_list@
    &&& after.proc_map()[pid].pgid == pid
    &&& after.proc_map()[pid].sid == pid
    &&& after.group_map() == before.group_map()
    &&& after.session_map() == before.session_map()
    &&& after.thread_map() == before.thread_map()
    &&& after.init_pid() == before.init_pid()
}

/// Leaving the old group and leading a new group in a new session keeps the
/// table consistent.
proof fn lemma_setsid_wf(l0: ProcessList, l1: ProcessList, l2: ProcessList, l3: ProcessList, pid: u32)
    requires
        l0.wf(),
        l0.proc_map().contains_key(pid),
        !l0.session_map().contains_key(pid),
        setsid_fits(l0, pid),
        detached(l0, l1, pid),
        founded(l1, l2, pid),
        leader_set(l2, l3, pid),
    ensures
        l3.wf(),
        resettled(l0, l3, pid),
{
    let p0 = l0.proc_map();
    let p3 = l3.proc_map();
    let g0 = l0.group_map();
    let g1 = l1.group_map();
    let g3 = l3.group_map();
    let s0 = l0.session_map();
    let s1 = l1.session_map();
    let s3 = l3.session_map();
    let g = p0[pid].pgid;
    let s = p0[pid].sid;
    assert(g0[g].session == s);
    let kept = exists|y: u32| g0[g].processes@.contains(y) && y != pid;
    assert forall|h: u32| #[trigger] g0.contains_key(h) && h != g implies g1.contains_key(h) && g1[h] == g0[h] by {
        if !kept {
            assert(g1 == g0.remove(g));
        }
    }
    assert(g1.contains_key(g) <==> kept);
    assert(!g1.contains_key(pid)) by {
        if g0.contains_key(pid) {
            let y = choose|y: u32| g0[pid].processes@.contains(y);
            assert(g0[pid].processes@.contains(g0[pid].processes@[0]));
            assert(p0[pid].pgid == pid);
        }
    }
    assert(!s1.contains_key(pid));
    assert forall|t: u32| #[trigger] s0.contains_key(t) && t != s implies s1.contains_key(t) && s1[t] == s0[t] by {}
    assert forall|p: u32| #[trigger] p3.contains_key(p) implies {
        &&& p3[p].pid == p
        &&& g3.contains_key(p3[p].pgid)
        &&& g3[p3[p].pgid].processes@.contains(p)
        &&& g3[p3[p].pgid].session == p3[p].sid
        &&& s3.contains_key(p3[p].sid)
        &&& l3.thread_map().contains_key(p)
        &&& l3.thread_map()[p] == p
    } by {
        if p == pid {
            assert(g3[pid].processes@[0] == pid);
        } else {
            let h = p0[p].pgid;
            assert(g0[h].processes@.contains(p));
            if h == g {
                assert(kept);
                assert(g1[g].processes@.contains(p));
            } else {
                assert(g1[h] == g0[h]);
            }
            assert(h != pid) by {
                if h == pid {
                    assert(g0.contains_key(pid));
                }
            }
            assert(g3[h] == g1[h]);
            assert(s0.contains_key(p0[p].sid));
            assert(s1.contains_key(p0[p].sid)) by {
                if p0[p].sid == s && !s1.contains_key(s) {
                    assert(g1.contains_key(h));
                }
            }
        }
    }
    assert forall|h: u32| #[trigger] g3.contains_key(h) implies {
        &&& g3[h].pgid == h
        &&& g3[h].processes@.len() > 0
        &&& (forall|m: u32| #[trigger] g3[h].processes@.contains(m) ==> p3.contains_key(m) && p3[m].pgid == h)
        &&& s3.contains_key(g3[h].session)
        &&& s3[g3[h].session].groups@.contains(h)
    } by {
        if h == pid {
            assert forall|m: u32| #[trigger] g3[h].processes@.contains(m) implies p3.contains_key(m) && p3[m].pgid == h by {
                assert(g3[h].processes@[0] == pid);
            }
            assert(s3[pid].groups@[0] == pid);
        } else {
            assert(g1.contains_key(h));
            assert(g3[h] == g1[h]);
            assert(g0.contains_key(h));
            assert forall|m: u32| #[trigger] g3[h].processes@.contains(m) implies p3.contains_key(m) && p3[m].pgid == h by {
                assert(g0[h].processes@.contains(m));
                if m == pid {
                    assert(h == g);
                }
            }
            let t = g0[h].session;
            assert(s0[t].groups@.contains(h));
            assert(s1.contains_key(t) && s1[t].groups@.contains(h));
            assert(s3[t] == s1[t]);
        }
    }
    assert forall|t: u32| #[trigger] s3.contains_key(t) implies {
        &&& s3[t].sid == t
        &&& s3[t].groups@.len() > 0
        &&& forall|h: u32| #[trigger] s3[t].groups@.contains(h) ==> g3.contains_key(h) && g3[h].session == t
    } by {
        if t == pid {
            assert forall|h: u32| #[trigger] s3[t].groups@.contains(h) implies g3.contains_key(h) && g3[h].session == t by {
                assert(s3[t].groups@[0] == pid);
            }
        } else {
            assert(s3[t] == s1[t]);
            assert forall|h: u32| #[trigger] s3[t].groups@.contains(h) implies g3.contains_key(h) && g3[h].session == t by {
                assert(s0[t].groups@.contains(h));
                assert(g0.contains_key(h));
                assert(h != pid);
            }
        }
    }
    assert forall|p: u32, c: u32| p3.contains_key(p) && #[trigger] p3[p].children@.contains(c) implies p3.contains_key(c)
        && p3[c].parent == Some(p) by {
        assert(p0[p].children@.contains(c));
    }
    assert forall|c: u32| #[trigger] p3.contains_key(c) && p3[c].parent is Some implies p3[c].parent->0 != c && p3.contains_key(
        p3[c].parent->0) && p3[p3[c].parent->0].children@.contains(c) by {
        assert(p0[p0[c].parent->0].children@.contains(c));
    }
    assert forall|p: u32| #[trigger] p3.contains_key(p) && p3[p].threads@.len() == 0 implies p3[p].children@.len() == 0 by {
        assert(p0.contains_key(p));
    }
    assert forall|p: u32| #[trigger] p3.contains_key(p) implies {
        &&& forall|i: int|
            0 <= i < p3[p].wait_list@.len() && is_exit_event(#[trigger] p3[p].wait_list@[i]) ==> {
                let c = p3[p].wait_list@[i].pid;
                &&& p3.contains_key(c)
                &&& p3[c].parent == Some(p)
                &&& p3[c].threads@.len() == 0
            }
        &&& forall|i: int, j: int|
            0 <= i < p3[p].wait_list@.len() && 0 <= j < p3[p].wait_list@.len() && is_exit_event(
                #[trigger] p3[p].wait_list@[i],
            ) && is_exit_event(#[trigger] p3[p].wait_list@[j]) && p3[p].wait_list@[i].pid
                == p3[p].wait_list@[j].pid ==> i == j
    } by {
        assert(p3[p].wait_list@ == p0[p].wait_list@);
        assert forall|i: int| 0 <= i < p3[p].wait_list@.len() && is_exit_event(#[trigger] p3[p].wait_list@[i]) implies {
            let c = p3[p].wait_list@[i].pid;
            &&& p3.contains_key(c)
            &&& p3[c].parent == Some(p)
            &&& p3[c].threads@.len() == 0
        } by {
            assert(p0[p].wait_list@[i] == p3[p].wait_list@[i]);
        }
    }
    assert forall|t: u32| s0.contains_key(t) && #[trigger] s3.contains_key(t) implies s3[t].foreground
        == s0[t].foreground && s3[t].control_terminal == s0[t].control_terminal by {
        assert(t != pid);
        if t == s && s1.contains_key(s) && !kept {
        } else {
            assert(s1[t] == s0[t]);
        }
    }
}

/// Whether process `pid` can leave the table: it has no threads left, is
/// not init, and its parent holds no exit event about it any more.
pub open spec fn removable(l: ProcessList, pid: u32) -> bool {
    &&& l.proc_map().contains_key(pid)
    &&& l.proc_map()[pid].threads@.len() == 0
    &&& l.init_pid() != Some(pid)
    &&& (l.proc_map()[pid].parent matches Some(pp) ==> forall|i: int|
        0 <= i < l.proc_map()[pp].wait_list@.len() && is_exit_event(
            #[trigger] l.proc_map()[pp].wait_list@[i],
        ) ==> l.proc_map()[pp].wait_list@[i].pid != pid)
}

/// The table after the record and leader thread of process `pid` left it
/// and its parent stopped listing it; groups and sessions untouched.
pub open spec fn unlisted(before: ProcessList, after: ProcessList, pid: u32) -> bool {
    let parent = before.proc_map()[pid].parent;
    &&& after.proc_map().dom() == before.proc_map().dom().remove(pid)
    &&& forall|q: u32|
        before.proc_map().contains_key(q) && q != pid && parent != Some(q) ==> #[trigger] after.proc_map()[q]
            == before.proc_map()[q]
    &&& (parent matches Some(pp) ==> {
        &&& same_but_children(after.proc_map()[pp], before.proc_map()[pp])
        &&& forall|y: u32| #[trigger] after.proc_map()[pp].children@.contains(y) <==> (before.proc_map()[pp].children@.contains(y) && y != pid)
    })
    &&& after.thread_map() == before.thread_map().remove(pid)
    &&& after.init_pid() == before.init_pid()
    &&& after.group_map() == before.group_map()
    &&& after.session_map() == before.session_map()
}

/// The table after process `pid` left it: its record, its leader thread and
/// its parent's listing of it are gone, and its group and session went with
/// it when it was their last member; surviving sessions keep their job
/// control state.
pub open spec fn removed(before: ProcessList, after: ProcessList, pid: u32) -> bool {
    let parent = before.proc_map()[pid].parent;
    &&& after.proc_map().dom() == before.proc_map().dom().remove(pid)
    &&& forall|q: u32|
        before.proc_map().contains_key(q) && q != pid && parent != Some(q) ==> #[trigger] after.proc_map()[q]
            == before.proc_map()[q]
    &&& (parent matches Some(pp) ==> {
        &&& same_but_children(after.proc_map()[pp], before.proc_map()[pp])
        &&& forall|y: u32| #[trigger] after.proc_map()[pp].children@.contains(y) <==> (before.proc_map()[pp].children@.contains(y) && y != pid)
    })
    &&& after.thread_map() == before.thread_map().remove(pid)
    &&& after.init_pid() == before.init_pid()
    &&& forall|t: u32|
        before.session_map().contains_key(t) && #[trigger] after.session_map().contains_key(t)
            ==> after.session_map()[t].foreground == before.session_map()[t].foreground
            && after.session_map()[t].control_terminal == before.session_map()[t].control_terminal
}

/// Removing a process without threads keeps the table consistent.
proof fn lemma_remove_wf(l0: ProcessList, l1: ProcessList, l2: ProcessList, pid: u32)
    requires
        l0.wf(),
        removable(l0, pid),
        detached(l0, l1, pid),
        unlisted(l1, l2, pid),
    ensures
        l2.wf(),
        removed(l0, l2, pid),
{
    let p0 = l0.proc_map();
    let p2 = l2.proc_map();
    let g0 = l0.group_map();
    let g2 = l2.group_map();
    let s0 = l0.session_map();
    let s2 = l2.session_map();
    let g = p0[pid].pgid;
    let s = p0[pid].sid;
    assert(g0[g].session == s);
    assert(p0[pid].children@.len() == 0);
    let kept = exists|y: u32| g0[g].processes@.contains(y) && y != pid;
    assert forall|h: u32| #[trigger] g0.contains_key(h) && h != g implies g2.contains_key(h) && g2[h] == g0[h] by {
        if !kept {
            assert(g2 == g0.remove(g));
        }
    }
    assert(g2.contains_key(g) <==> kept);
    assert forall|t: u32| #[trigger] s0.contains_key(t) && t != s implies s2.contains_key(t) && s2[t] == s0[t] by {}
    assert forall|p: u32| #[trigger] p2.contains_key(p) implies {
        &&& p2[p].pid == p
        &&& g2.contains_key(p2[p].pgid)
        &&& g2[p2[p].pgid].processes@.contains(p)
        &&& g2[p2[p].pgid].session == p2[p].sid
        &&& s2.contains_key(p2[p].sid)
        &&& l2.thread_map().contains_key(p)
        &&& l2.thread_map()[p] == p
    } by {
        let h = p0[p].pgid;
        assert(p2[p].pgid == h && p2[p].sid == p0[p].sid);
        assert(g0[h].processes@.contains(p));
        if h == g {
            assert(kept);
            assert(g2[g].processes@.contains(p));
        }
        assert(s0.contains_key(p0[p].sid));
        assert(s2.contains_key(p0[p].sid)) by {
            if p0[p].sid == s {
                assert(g2.contains_key(h));
                assert(g0[h].session == s);
                if !s2.contains_key(s) {
                    assert(!kept);
                    assert(s0[s].groups@.contains(h));
                }
            }
        }
    }
    assert forall|h: u32| #[trigger] g2.contains_key(h) implies {
        &&& g2[h].pgid == h
        &&& g2[h].processes@.len() > 0
        &&& (forall|m: u32| #[trigger] g2[h].processes@.contains(m) ==> p2.contains_key(m) && p2[m].pgid == h)
        &&& s2.contains_key(g2[h].session)
        &&& s2[g2[h].session].groups@.contains(h)
    } by {
        assert(g0.contains_key(h));
        assert forall|m: u32| #[trigger] g2[h].processes@.contains(m) implies p2.contains_key(m) && p2[m].pgid == h by {
            assert(g0[h].processes@.contains(m));
        }
        let t = g0[h].session;
        assert(s0[t].groups@.contains(h));
        if h != g && t == s && !kept {
            assert(s0[s].groups@.contains(h) && h != g);
        }
    }
    assert forall|t: u32| #[trigger] s2.contains_key(t) implies {
        &&& s2[t].sid == t
        &&& s2[t].groups@.len() > 0
        &&& forall|h: u32| #[trigger] s2[t].groups@.contains(h) ==> g2.contains_key(h) && g2[h].session == t
    } by {
        assert forall|h: u32| #[trigger] s2[t].groups@.contains(h) implies g2.contains_key(h) && g2[h].session == t by {
            assert(s0[t].groups@.contains(h));
            if h == g {
                assert(kept);
            }
        }
    }
    assert forall|p: u32, c: u32| p2.contains_key(p) && #[trigger] p2[p].children@.contains(c) implies p2.contains_key(c)
        && p2[c].parent == Some(p) by {
        assert(p0[p].children@.contains(c));
    }
    assert forall|c: u32| #[trigger] p2.contains_key(c) && p2[c].parent is Some implies p2[c].parent->0 != c && p2.contains_key(
        p2[c].parent->0) && p2[p2[c].parent->0].children@.contains(c) by {
        let pp = p0[c].parent->0;
        assert(p0[pp].children@.contains(c));
        if pp == pid {
            assert(p0[pid].children@.contains(c));
            assert(false);
        }
    }
    assert forall|p: u32| #[trigger] p2.contains_key(p) && p2[p].threads@.len() == 0 implies p2[p].children@.len() == 0 by {
        assert(p0.contains_key(p));
        if p0[pid].parent == Some(p) {
            lemma_empty_iff(p0[p].children@);
            lemma_empty_iff(p2[p].children@);
        }
    }
    assert forall|p: u32| #[trigger] p2.contains_key(p) implies {
        &&& forall|i: int|
            0 <= i < p2[p].wait_list@.len() && is_exit_event(#[trigger] p2[p].wait_list@[i]) ==> {
                let c = p2[p].wait_list@[i].pid;
                &&& p2.contains_key(c)
                &&& p2[c].parent == Some(p)
                &&& p2[c].threads@.len() == 0
            }
        &&& forall|i: int, j: int|
            0 <= i < p2[p].wait_list@.len() && 0 <= j < p2[p].wait_list@.len() && is_exit_event(
                #[trigger] p2[p].wait_list@[i],
            ) && is_exit_event(#[trigger] p2[p].wait_list@[j]) && p2[p].wait_list@[i].pid
                == p2[p].wait_list@[j].pid ==> i == j
    } by {
        assert(p2[p].wait_list@ == p0[p].wait_list@);
        assert forall|i: int| 0 <= i < p2[p].wait_list@.len() && is_exit_event(#[trigger] p2[p].wait_list@[i]) implies {
            let c = p2[p].wait_list@[i].pid;
            &&& p2.contains_key(c)
            &&& p2[c].parent == Some(p)
            &&& p2[c].threads@.len() == 0
        } by {
            assert(p0[p].wait_list@[i] == p2[p].wait_list@[i]);
            let c = p0[p].wait_list@[i].pid;
            assert(p0[c].parent == Some(p));
            if c == pid {
                assert(p0[pid].parent == Some(p));
                assert(false);
            }
            if p0[pid].parent == Some(c) {
                assert(p2[c].threads@ == p0[c].threads@);
            }
        }
    }
    assert forall|t: u32| s0.contains_key(t) && #[trigger] s2.contains_key(t) implies s2[t].foreground
        == s0[t].foreground && s2[t].control_terminal == s0[t].control_terminal by {}
}

/// The process group of process `c`, when it is in the table.
pub open spec fn pgid_in(l: ProcessList, c: u32) -> Option<u32> {
    if l.proc_map().contains_key(c) {
        Some(l.proc_map()[c].pgid)
    } else {
        None
    }
}

/// Whether a waiter `pid` wants event `i` of its wait list.
pub open spec fn wanted_at(
    l: ProcessList,
    pid: u32,
    i: int,
    want_stop: bool,
    want_continue: bool,
    want_id: WaitId,
) -> bool {
    let o = l.proc_map()[pid].wait_list@[i];
    wanted(o, pgid_in(l, o.pid), want_stop, want_continue, want_id)
}

/// Whether event `i` is the first one of the wait list of process `pid`
/// that the waiter wants.
pub open spec fn first_wanted_at(
    l: ProcessList,
    pid: u32,
    i: int,
    want_stop: bool,
    want_continue: bool,
    want_id: WaitId,
) -> bool {
    &&& 0 <= i < l.proc_map()[pid].wait_list@.len()
    &&& wanted_at(l, pid, i, want_stop, want_continue, want_id)
    &&& forall|j: int| 0 <= j < i ==> !wanted_at(l, pid, j, want_stop, want_continue, want_id)
}

/// The table after event `i` left the wait list of process `pid`.
pub open spec fn event_taken(before: ProcessList, after: ProcessList, pid: u32, i: int) -> bool {
    &&& after.proc_map().dom() == before.proc_map().dom()
    &&& forall|q: u32|
        before.proc_map().contains_key(q) && q != pid ==> #[trigger] after.proc_map()[q]
            == before.proc_map()[q]
    &&& same_scalars(after.proc_map()[pid], before.proc_map()[pid])
    &&& after.proc_map()[pid].children@ == before.proc_map()[pid].children@
    &&& after.proc_map()[pid].threads@ == before.proc_map()[pid].threads@
    &&& after.proc_map()[pid].wait_list@ == before.proc_map()[pid].wait_list@.remove(i)
    &&& after.group_map() == before.group_map()
    &&& after.session_map() == before.session_map()
    &&& after.thread_map() == before.thread_map()
    &&& after.init_pid() == before.init_pid()
}

/// The table after process `pid` collected the exit event `i` of its wait
/// list, about its child `c`: the event is gone and `c` left the table with
/// its leader thread, its group and session going with it when it was their
/// last member; surviving sessions keep their job control state.
pub open spec fn reaped(before: ProcessList, after: ProcessList, pid: u32, i: int, c: u32) -> bool {
    &&& after.proc_map().dom() == before.proc_map().dom().remove(c)
    &&& forall|q: u32|
        before.proc_map().contains_key(q) && q != pid && q != c ==> #[trigger] after.proc_map()[q]
            == before.proc_map()[q]
    &&& same_scalars(after.proc_map()[pid], before.proc_map()[pid])
    &&& after.proc_map()[pid].threads@ == before.proc_map()[pid].threads@
    &&& after.proc_map()[pid].wait_list@ == before.proc_map()[pid].wait_list@.remove(i)
    &&& forall|y: u32| #[trigger] after.proc_map()[pid].children@.contains(y) <==> (before.proc_map()[pid].children@.contains(y) && y != c)
    &&& after.thread_map() == before.thread_map().remove(c)
    &&& after.init_pid() == before.init_pid()
    &&& forall|t: u32|
        before.session_map().contains_key(t) && #[trigger] after.session_map().contains_key(t)
            ==> after.session_map()[t].foreground == before.session_map()[t].foreground
            && after.session_map()[t].control_terminal == before.session_map()[t].control_terminal
}

/// Taking an event out of a wait list keeps the table consistent, and
/// leaves the child of a taken exit event removable.
proof fn lemma_take_event_wf(l0: ProcessList, l1: ProcessList, pid: u32, i: int)
    requires
        l0.wf(),
        l0.proc_map().contains_key(pid),
        0 <= i < l0.proc_map()[pid].wait_list@.len(),
        event_taken(l0, l1, pid, i),
    ensures
        l1.wf(),
        is_exit_event(l0.proc_map()[pid].wait_list@[i]) ==> removable(
            l1,
            l0.proc_map()[pid].wait_list@[i].pid,
        ) && l1.proc_map()[l0.proc_map()[pid].wait_list@[i].pid].parent == Some(pid),
{
    let p0 = l0.proc_map();
    let p1 = l1.proc_map();
    let w0 = p0[pid].wait_list@;
    let w1 = p1[pid].wait_list@;
    assert forall|p: u32| #[trigger] p1.contains_key(p) implies {
        &&& p1[p].pid == p
        &&& l1.group_map().contains_key(p1[p].pgid)
        &&& l1.group_map()[p1[p].pgid].processes@.contains(p)
        &&& l1.group_map()[p1[p].pgid].session == p1[p].sid
        &&& l1.session_map().contains_key(p1[p].sid)
        &&& l1.thread_map().contains_key(p)
        &&& l1.thread_map()[p] == p
    } by {
        assert(p0.contains_key(p));
    }
    assert forall|g: u32| #[trigger] l1.group_map().contains_key(g) implies {
        &&& l1.group_map()[g].pgid == g
        &&& l1.group_map()[g].processes@.len() > 0
        &&& (forall|m: u32|
            #[trigger] l1.group_map()[g].processes@.contains(m) ==> p1.contains_key(m) && p1[m].pgid
                == g)
        &&& l1.session_map().contains_key(l1.group_map()[g].session)
        &&& l1.session_map()[l1.group_map()[g].session].groups@.contains(g)
    } by {
        assert forall|m: u32| #[trigger] l1.group_map()[g].processes@.contains(m) implies p1.contains_key(m) && p1[m].pgid == g by {
            assert(l0.group_map()[g].processes@.contains(m));
        }
    }
    assert forall|p: u32, c: u32| p1.contains_key(p) && #[trigger] p1[p].children@.contains(c) implies p1.contains_key(c)
        && p1[c].parent == Some(p) by {
        assert(p0[p].children@.contains(c));
    }
    assert forall|c: u32| #[trigger] p1.contains_key(c) && p1[c].parent is Some implies p1[c].parent->0 != c && p1.contains_key(
        p1[c].parent->0) && p1[p1[c].parent->0].children@.contains(c) by {
        assert(p0[p0[c].parent->0].children@.contains(c));
    }
    assert forall|p: u32| #[trigger] p1.contains_key(p) && p1[p].threads@.len() == 0 implies p1[p].children@.len() == 0 by {
        assert(p0.contains_key(p));
    }
    assert forall|p: u32| #[trigger] p1.contains_key(p) implies {
        &&& forall|k: int|
            0 <= k < p1[p].wait_list@.len() && is_exit_event(#[trigger] p1[p].wait_list@[k]) ==> {
                let c = p1[p].wait_list@[k].pid;
                &&& p1.contains_key(c)
                &&& p1[c].parent == Some(p)
                &&& p1[c].threads@.len() == 0
            }
        &&& forall|k: int, j: int|
            0 <= k < p1[p].wait_list@.len() && 0 <= j < p1[p].wait_list@.len() && is_exit_event(
                #[trigger] p1[p].wait_list@[k],
            ) && is_exit_event(#[trigger] p1[p].wait_list@[j]) && p1[p].wait_list@[k].pid
                == p1[p].wait_list@[j].pid ==> k == j
    } by {
        if p != pid {
            assert(p1[p].wait_list@ == p0[p].wait_list@);
            assert forall|k: int| 0 <= k < p1[p].wait_list@.len() && is_exit_event(#[trigger] p1[p].wait_list@[k]) implies {
                let c = p1[p].wait_list@[k].pid;
                &&& p1.contains_key(c)
                &&& p1[c].parent == Some(p)
                &&& p1[c].threads@.len() == 0
            } by {
                assert(p0[p].wait_list@[k] == p1[p].wait_list@[k]);
                let c = p0[p].wait_list@[k].pid;
                if c == pid {
                    assert(p1[pid].threads@ == p0[pid].threads@);
                }
            }
        } else {
            assert forall|k: int| 0 <= k < w1.len() && is_exit_event(#[trigger] w1[k]) implies {
                let c = w1[k].pid;
                &&& p1.contains_key(c)
                &&& p1[c].parent == Some(pid)
                &&& p1[c].threads@.len() == 0
            } by {
                let k0 = if k < i { k } else { k + 1 };
                assert(w1[k] == w0[k0]);
                let c = w0[k0].pid;
                if c == pid {
                    assert(p1[pid].threads@ == p0[pid].threads@);
                }
            }
            assert forall|k: int, j: int|
                0 <= k < w1.len() && 0 <= j < w1.len() && is_exit_event(#[trigger] w1[k]) && is_exit_event(
                    #[trigger] w1[j],
                ) && w1[k].pid == w1[j].pid implies k == j by {
                let k0 = if k < i { k } else { k + 1 };
                let j0 = if j < i { j } else { j + 1 };
                assert(w1[k] == w0[k0]);
                assert(w1[j] == w0[j0]);
            }
        }
    }
    if is_exit_event(w0[i]) {
        let c = w0[i].pid;
        assert(p0.contains_key(c) && p0[c].parent == Some(pid));
        if c == pid {
            assert(p0[pid].threads@.len() == 0);
            assert(p1[pid].threads@.len() == 0);
        }
        assert(p1[c].threads@.len() == 0);
        assert forall|k: int| 0 <= k < w1.len() && is_exit_event(#[trigger] w1[k]) implies w1[k].pid != c by {
            let k0 = if k < i { k } else { k + 1 };
            assert(w1[k] == w0[k0]);
        }
        if l0.init_pid() == Some(c) {
            assert(p0[c].parent is None);
        }
    }
}

/// What a thread's exit leaves for the caller to do outside the table:
/// whether it was the process's last thread, the control terminal a
/// session leader dropped, whether init got events to collect (and so a
/// `SIGCHLD`), and the signal owed to the parent.
pub struct ExitOutcome {
    pub last_thread: bool,
    pub dropped_terminal: Option<u32>,
    pub notify_init: bool,
    pub parent_signal: Option<(u32, Signal)>,
}

/// Whether thread `tid` of process `pid` may exit: it is a thread of
/// `pid`, which is neither pid 1 nor init, init is set, and a last
/// thread's process has a parent to tell.
pub open spec fn exit_allowed(l: ProcessList, pid: u32, tid: u32, status: WaitType) -> bool {
    &&& l.proc_map().contains_key(pid)
    &&& pid != 1
    &&& l.proc_map()[pid].threads@.contains(tid)
    &&& l.init_pid() is Some
    &&& l.init_pid() != Some(pid)
    &&& (l.proc_map()[pid].threads@.len() == 1 ==> l.proc_map()[pid].parent is Some)
}

/// The table after thread `tid` of process `pid` exited while others are
/// left: `tid` leaves the thread list, which lists it once.
pub open spec fn thread_exited(before: ProcessList, after: ProcessList, pid: u32, tid: u32) -> bool {
    &&& after.proc_map().dom() == before.proc_map().dom()
    &&& forall|q: u32|
        before.proc_map().contains_key(q) && q != pid ==> #[trigger] after.proc_map()[q]
            == before.proc_map()[q]
    &&& same_scalars(after.proc_map()[pid], before.proc_map()[pid])
    &&& after.proc_map()[pid].children@ == before.proc_map()[pid].children@
    &&& after.proc_map()[pid].wait_list@ == before.proc_map()[pid].wait_list@
    &&& exists|k: int|
        0 <= k < before.proc_map()[pid].threads@.len() && before.proc_map()[pid].threads@[k] == tid
            && (forall|j: int| 0 <= j < k ==> before.proc_map()[pid].threads@[j] != tid)
            && #[trigger] after.proc_map()[pid].threads@ == before.proc_map()[pid].threads@.remove(k)
    &&& !after.proc_map()[pid].threads@.contains(tid)
    &&& after.group_map() == before.group_map()
    &&& after.session_map() == before.session_map()
    &&& after.thread_map() == before.thread_map()
    &&& after.init_pid() == before.init_pid()
}

/// The table after the last thread of process `pid` exited with `status`:
/// it keeps its record as a zombie without threads, children or events;
/// its children become init's, its pending exit events go to init, its
/// parent gets its exit event, and a session it leads loses its terminal
/// and foreground group.
pub open spec fn process_exited(before: ProcessList, after: ProcessList, pid: u32, status: WaitType) -> bool {
    let me = before.proc_map()[pid];
    let init = before.init_pid()->0;
    let pp = me.parent->0;
    let kids = me.children@;
    let ev = WaitObject { pid, code: status };
    &&& after.proc_map().dom() == before.proc_map().dom()
    &&& forall|q: u32|
        #[trigger] before.proc_map().contains_key(q) ==> {
            let b = before.proc_map()[q];
            let a = after.proc_map()[q];
            &&& a.pid == b.pid
            &&& a.pgid == b.pgid
            &&& a.sid == b.sid
            &&& a.exit_signal == b.exit_signal
            &&& a.parent == (if kids.contains(q) { Some(init) } else { b.parent })
            &&& a.threads@ == (if q == pid { Seq::<u32>::empty() } else { b.threads@ })
            &&& (q != pid && q != init ==> a.children@ == b.children@)
            &&& (q != init && q != pp && q != pid ==> a.wait_list@ == b.wait_list@)
        }
    &&& after.proc_map()[pid].children@ == Seq::<u32>::empty()
    &&& after.proc_map()[pid].wait_list@ == Seq::<WaitObject>::empty()
    &&& forall|y: u32| #[trigger] after.proc_map()[init].children@.contains(y) <==> (before.proc_map()[init].children@.contains(y) || kids.contains(y))
    &&& after.proc_map()[init].wait_list@ == before.proc_map()[init].wait_list@ + exit_events(me.wait_list@) + (if pp == init {
        seq![ev]
    } else {
        Seq::<WaitObject>::empty()
    })
    &&& (pp != init ==> after.proc_map()[pp].wait_list@ == before.proc_map()[pp].wait_list@.push(ev))
    &&& after.group_map() == before.group_map()
    &&& (me.sid == pid ==> {
        &&& after.session_map().dom() == before.session_map().dom()
        &&& forall|t: u32| before.session_map().contains_key(t) && t != pid ==> #[trigger] after.session_map()[t] == before.session_map()[t]
        &&& after.session_map()[pid].sid == pid
        &&& after.session_map()[pid].groups@ == before.session_map()[pid].groups@
        &&& after.session_map()[pid].foreground is None
        &&& after.session_map()[pid].control_terminal is None
    })
    &&& (me.sid != pid ==> after.session_map() == before.session_map())
    &&& after.thread_map() == before.thread_map()
    &&& after.init_pid() == before.init_pid()
}

/// A thread leaving a process with other threads keeps the table
/// consistent.
proof fn lemma_thread_exit_wf(l0: ProcessList, l1: ProcessList, pid: u32, tid: u32)
    requires
        l0.wf(),
        l0.proc_map().contains_key(pid),
        l0.proc_map()[pid].threads@.len() != 1,
        thread_exited(l0, l1, pid, tid),
    ensures
        l1.wf(),
{
    let p0 = l0.proc_map();
    let p1 = l1.proc_map();
    let s0 = p0[pid].threads@;
    let k = choose|k: int|
        0 <= k < s0.len() && s0[k] == tid && (forall|j: int| 0 <= j < k ==> s0[j] != tid)
            && #[trigger] p1[pid].threads@ == s0.remove(k);
    let s1 = s0.remove(k);
    assert(p1[pid].threads@ == s1);
    assert forall|i: int, j: int| 0 <= i < s1.len() && 0 <= j < s1.len() && i != j implies s1[i] != s1[j] by {
        let i0 = if i < k { i } else { i + 1 };
        let j0 = if j < k { j } else { j + 1 };
        assert(s1[i] == s0[i0] && s1[j] == s0[j0]);
    }
    assert forall|p: u32| #[trigger] p1.contains_key(p) implies p1[p].threads@.no_duplicates() by {
        if p != pid {
            assert(p1[p] == p0[p]);
        }
    }
    assert forall|p: u32, t: u32| p1.contains_key(p) && #[trigger] p1[p].threads@.contains(t) implies l1.thread_map().contains_key(t)
        && l1.thread_map()[t] == p by {
        if p != pid {
            assert(p1[p] == p0[p]);
        } else {
            let i = choose|i: int| 0 <= i < s1.len() && s1[i] == t;
            let i0 = if i < k { i } else { i + 1 };
            assert(s0[i0] == t);
            assert(s0.contains(t));
        }
    }
}

/// The last thread of a process leaving keeps the table consistent.
proof fn lemma_exit_wf(l0: ProcessList, l1: ProcessList, pid: u32, status: WaitType)
    requires
        l0.wf(),
        l0.proc_map().contains_key(pid),
        l0.proc_map()[pid].threads@.len() == 1,
        l0.proc_map()[pid].parent is Some,
        l0.init_pid() is Some,
        l0.init_pid() != Some(pid),
        process_exited(l0, l1, pid, status),
    ensures
        l1.wf(),
{
    let p0 = l0.proc_map();
    let p1 = l1.proc_map();
    let me = p0[pid];
    let init = l0.init_pid()->0;
    let pp = me.parent->0;
    let kids = me.children@;
    let ev = WaitObject { pid, code: status };
    let passed = exit_events(me.wait_list@);
    assert(p0.contains_key(init) && p0.contains_key(pp));
    assert(!kids.contains(init));
    assert(!kids.contains(pid));
    assert(pp != pid);
    assert(pid != init);
    assert forall|c: u32| #[trigger] kids.contains(c) implies p0.contains_key(c) && p0[c].parent == Some(pid) by {}
    // the exit events of the dying process are about its children, without threads
    assert forall|k: int| 0 <= k < passed.len() implies #[trigger] passed[k].pid != pid && kids.contains(passed[k].pid)
        && p0[passed[k].pid].threads@.len() == 0 && is_exit_event(passed[k]) by {
        let f = |o: WaitObject| is_exit_event(o);
        assert(me.wait_list@.filter(f).contains(passed[k]));
        me.wait_list@.lemma_filter_contains_rev(f, passed[k]);
        me.wait_list@.lemma_filter_pred(f, k);
        assert(me.wait_list@.contains(passed[k]));
        let j = choose|j: int| 0 <= j < me.wait_list@.len() && me.wait_list@[j] == passed[k];
        assert(is_exit_event(p0[pid].wait_list@[j]));
        let c = passed[k].pid;
        assert(p0[c].parent == Some(pid));
    }
    assert forall|a: int, b: int|
        0 <= a < passed.len() && 0 <= b < passed.len() && #[trigger] passed[a].pid == #[trigger] passed[b].pid implies a == b by {
        lemma_filter_unique_pids(me.wait_list@, a, b);
    }
    assert forall|p: u32| #[trigger] p1.contains_key(p) implies {
        &&& p1[p].pid == p
        &&& l1.group_map().contains_key(p1[p].pgid)
        &&& l1.group_map()[p1[p].pgid].processes@.contains(p)
        &&& l1.group_map()[p1[p].pgid].session == p1[p].sid
        &&& l1.session_map().contains_key(p1[p].sid)
        &&& l1.thread_map().contains_key(p)
        &&& l1.thread_map()[p] == p
    } by {
        assert(p0.contains_key(p));
    }
    assert forall|g: u32| #[trigger] l1.group_map().contains_key(g) implies {
        &&& l1.group_map()[g].pgid == g
        &&& l1.group_map()[g].processes@.len() > 0
        &&& (forall|m: u32|
            #[trigger] l1.group_map()[g].processes@.contains(m) ==> p1.contains_key(m) && p1[m].pgid
                == g)
        &&& l1.session_map().contains_key(l1.group_map()[g].session)
        &&& l1.session_map()[l1.group_map()[g].session].groups@.contains(g)
    } by {
        assert forall|m: u32| #[trigger] l1.group_map()[g].processes@.contains(m) implies p1.contains_key(m) && p1[m].pgid == g by {
            assert(l0.group_map()[g].processes@.contains(m));
            assert(p0.contains_key(m));
        }
        let t = l0.group_map()[g].session;
        assert(l0.session_map()[t].groups@.contains(g));
    }
    assert forall|t: u32| #[trigger] l1.session_map().contains_key(t) implies {
        &&& l1.session_map()[t].sid == t
        &&& l1.session_map()[t].groups@.len() > 0
        &&& forall|g: u32| #[trigger] l1.session_map()[t].groups@.contains(g) ==> l1.group_map().contains_key(g)
            && l1.group_map()[g].session == t
    } by {
        assert(l0.session_map().contains_key(t));
        assert forall|g: u32| #[trigger] l1.session_map()[t].groups@.contains(g) implies l1.group_map().contains_key(g)
            && l1.group_map()[g].session == t by {
            assert(l0.session_map()[t].groups@.contains(g));
        }
    }
    assert forall|p: u32, c: u32| p1.contains_key(p) && #[trigger] p1[p].children@.contains(c) implies p1.contains_key(c)
        && p1[c].parent == Some(p) by {
        assert(p0.contains_key(p));
        if p == init {
            if kids.contains(c) {
            } else {
                assert(p0[init].children@.contains(c));
                assert(p0[c].parent == Some(init));
            }
        } else {
            assert(p != pid);
            assert(p1[p].children@ == p0[p].children@);
            assert(p0[p].children@.contains(c));
            assert(p0[c].parent == Some(p));
            if kids.contains(c) {
                assert(p0[c].parent == Some(pid));
            }
        }
    }
    assert forall|c: u32| #[trigger] p1.contains_key(c) && p1[c].parent is Some implies p1[c].parent->0 != c
        && p1.contains_key(p1[c].parent->0) && p1[p1[c].parent->0].children@.contains(c) by {
        assert(p0.contains_key(c));
        if kids.contains(c) {
            assert(p1[init].children@.contains(c));
            assert(c != init);
        } else {
            let x = p0[c].parent->0;
            assert(p0[x].children@.contains(c));
            if x == pid {
                assert(kids.contains(c));
            }
            if x == init {
                assert(p1[init].children@.contains(c));
            } else {
                assert(p1[x].children@ == p0[x].children@);
            }
        }
    }
    assert forall|p: u32| #[trigger] p1.contains_key(p) && p1[p].threads@.len() == 0 implies p1[p].children@.len() == 0 by {
        assert(p0.contains_key(p));
        if p == init {
            assert(p1[init].threads@ == p0[init].threads@);
        } else if p != pid {
            assert(p1[p].children@ == p0[p].children@);
        }
    }
    assert forall|p: u32| #[trigger] p1.contains_key(p) implies {
        &&& forall|i: int|
            0 <= i < p1[p].wait_list@.len() && is_exit_event(#[trigger] p1[p].wait_list@[i]) ==> {
                let c = p1[p].wait_list@[i].pid;
                &&& p1.contains_key(c)
                &&& p1[c].parent == Some(p)
                &&& p1[c].threads@.len() == 0
            }
        &&& forall|i: int, j: int|
            0 <= i < p1[p].wait_list@.len() && 0 <= j < p1[p].wait_list@.len() && is_exit_event(
                #[trigger] p1[p].wait_list@[i],
            ) && is_exit_event(#[trigger] p1[p].wait_list@[j]) && p1[p].wait_list@[i].pid
                == p1[p].wait_list@[j].pid ==> i == j
    } by {
        lemma_exit_waits(l0, l1, pid, status, p);
    }
}

/// Within the exit events of a wait list whose exit events name distinct
/// children, the children are distinct too.
proof fn lemma_filter_unique_pids(w: Seq<WaitObject>, a: int, b: int)
    requires
        forall|i: int, j: int|
            0 <= i < w.len() && 0 <= j < w.len() && is_exit_event(#[trigger] w[i]) && is_exit_event(
                #[trigger] w[j],
            ) && w[i].pid == w[j].pid ==> i == j,
        0 <= a < exit_events(w).len(),
        0 <= b < exit_events(w).len(),
        exit_events(w)[a].pid == exit_events(w)[b].pid,
    ensures
        a == b,
    decreases w.len(),
{
    let f = |o: WaitObject| is_exit_event(o);
    if w.len() > 0 {
        let w0 = w.drop_last();
        let x = w.last();
        assert(w =~= w0.push(x));
        w0.lemma_filter_push(x, f);
        assert forall|i: int, j: int|
            0 <= i < w0.len() && 0 <= j < w0.len() && is_exit_event(#[trigger] w0[i]) && is_exit_event(
                #[trigger] w0[j],
            ) && w0[i].pid == w0[j].pid implies i == j by {
            assert(w[i] == w0[i] && w[j] == w0[j]);
        }
        let e0 = exit_events(w0);
        if is_exit_event(x) {
            assert(exit_events(w) == e0.push(x));
            if a < e0.len() && b < e0.len() {
                lemma_filter_unique_pids(w0, a, b);
            } else if a < e0.len() || b < e0.len() {
                let k = if a < e0.len() { a } else { b };
                assert(e0.contains(e0[k]));
                w0.lemma_filter_contains_rev(f, e0[k]);
                w0.lemma_filter_pred(f, k);
                assert(w0.contains(e0[k]));
                let j = choose|j: int| 0 <= j < w0.len() && w0[j] == e0[k];
                assert(w[j] == w0[j]);
                assert(w[w.len() - 1] == x);
            }
        } else {
            assert(exit_events(w) == e0);
            lemma_filter_unique_pids(w0, a, b);
        }
    }
}

/// The wait lists after a process's last thread exits are consistent.
proof fn lemma_exit_waits(l0: ProcessList, l1: ProcessList, pid: u32, status: WaitType, p: u32)
    requires
        l0.wf(),
        l0.proc_map().contains_key(pid),
        l0.proc_map()[pid].threads@.len() == 1,
        l0.proc_map()[pid].parent is Some,
        l0.init_pid() is Some,
        l0.init_pid() != Some(pid),
        process_exited(l0, l1, pid, status),
        l1.proc_map().contains_key(p),
        forall|k: int| 0 <= k < exit_events(l0.proc_map()[pid].wait_list@).len() ==> #[trigger] exit_events(l0.proc_map()[pid].wait_list@)[k].pid != pid
            && l0.proc_map()[pid].children@.contains(exit_events(l0.proc_map()[pid].wait_list@)[k].pid)
            && l0.proc_map()[exit_events(l0.proc_map()[pid].wait_list@)[k].pid].threads@.len() == 0
            && is_exit_event(exit_events(l0.proc_map()[pid].wait_list@)[k]),
        forall|a: int, b: int|
            0 <= a < exit_events(l0.proc_map()[pid].wait_list@).len() && 0 <= b < exit_events(l0.proc_map()[pid].wait_list@).len()
                && #[trigger] exit_events(l0.proc_map()[pid].wait_list@)[a].pid == #[trigger] exit_events(l0.proc_map()[pid].wait_list@)[b].pid ==> a == b,
    ensures
        forall|i: int|
            0 <= i < l1.proc_map()[p].wait_list@.len() && is_exit_event(#[trigger] l1.proc_map()[p].wait_list@[i]) ==> {
                let c = l1.proc_map()[p].wait_list@[i].pid;
                &&& l1.proc_map().contains_key(c)
                &&& l1.proc_map()[c].parent == Some(p)
                &&& l1.proc_map()[c].threads@.len() == 0
            },
        forall|i: int, j: int|
            0 <= i < l1.proc_map()[p].wait_list@.len() && 0 <= j < l1.proc_map()[p].wait_list@.len() && is_exit_event(
                #[trigger] l1.proc_map()[p].wait_list@[i],
            ) && is_exit_event(#[trigger] l1.proc_map()[p].wait_list@[j]) && l1.proc_map()[p].wait_list@[i].pid
                == l1.proc_map()[p].wait_list@[j].pid ==> i == j,
{
    let p0 = l0.proc_map();
    let p1 = l1.proc_map();
    let me = p0[pid];
    let init = l0.init_pid()->0;
    let pp = me.parent->0;
    let kids = me.children@;
    let ev = WaitObject { pid, code: status };
    let passed = exit_events(me.wait_list@);
    let w0 = p0[p].wait_list@;
    let w1 = p1[p].wait_list@;
    assert(p0.contains_key(p));
    assert(p0.contains_key(init) && p0.contains_key(pp));
    assert(!kids.contains(pid));
    // an old exit event of a list is never about the dying process, and its
    // child is not a child of the dying process unless the list is its own
    assert forall|i: int| 0 <= i < w0.len() && is_exit_event(#[trigger] w0[i]) implies w0[i].pid != pid
        && p0.contains_key(w0[i].pid) && p0[w0[i].pid].parent == Some(p) && p0[w0[i].pid].threads@.len() == 0
        && (p != pid ==> !kids.contains(w0[i].pid)) by {
        if kids.contains(w0[i].pid) {
            assert(p0[w0[i].pid].parent == Some(pid));
        }
    }
    if p == pid {
        assert(w1.len() == 0);
    } else if p == init {
        let tail = if pp == init { seq![ev] } else { Seq::<WaitObject>::empty() };
        assert(w1 == w0 + passed + tail);
        let n0 = w0.len();
        let n1 = n0 + passed.len();
        assert forall|i: int| 0 <= i < w1.len() && is_exit_event(#[trigger] w1[i]) implies {
            let c = w1[i].pid;
            &&& p1.contains_key(c)
            &&& p1[c].parent == Some(p)
            &&& p1[c].threads@.len() == 0
        } by {
            if i < n0 {
                assert(w1[i] == w0[i]);
            } else if i < n1 {
                assert(w1[i] == passed[i - n0]);
                let c = passed[i - n0].pid;
                assert(kids.contains(c));
                assert(c != pid);
            } else {
                assert(w1[i] == ev);
                assert(pp == init);
            }
        }
        assert forall|i: int, j: int|
            0 <= i < w1.len() && 0 <= j < w1.len() && is_exit_event(#[trigger] w1[i]) && is_exit_event(
                #[trigger] w1[j],
            ) && w1[i].pid == w1[j].pid implies i == j by {
            if i < n0 && j < n0 {
                assert(w1[i] == w0[i] && w1[j] == w0[j]);
            } else if i >= n0 && i < n1 && j >= n0 && j < n1 {
                assert(w1[i] == passed[i - n0] && w1[j] == passed[j - n0]);
            } else if i < n0 && j >= n0 && j < n1 {
                assert(w1[i] == w0[i] && w1[j] == passed[j - n0]);
                assert(kids.contains(passed[j - n0].pid));
            } else if j < n0 && i >= n0 && i < n1 {
                assert(w1[j] == w0[j] && w1[i] == passed[i - n0]);
                assert(kids.contains(passed[i - n0].pid));
            } else if i >= n1 && j >= n1 {
            } else if i >= n1 {
                assert(w1[i] == ev);
                if j < n0 {
                    assert(w1[j] == w0[j]);
                } else {
                    assert(w1[j] == passed[j - n0]);
                }
            } else {
                assert(w1[j] == ev);
                if i < n0 {
                    assert(w1[i] == w0[i]);
                } else {
                    assert(w1[i] == passed[i - n0]);
                }
            }
        }
    } else if p == pp {
        assert(w1 == w0.push(ev));
        assert forall|i: int| 0 <= i < w1.len() && is_exit_event(#[trigger] w1[i]) implies {
            let c = w1[i].pid;
            &&& p1.contains_key(c)
            &&& p1[c].parent == Some(p)
            &&& p1[c].threads@.len() == 0
        } by {
            if i < w0.len() {
                assert(w1[i] == w0[i]);
            }
        }
        assert forall|i: int, j: int|
            0 <= i < w1.len() && 0 <= j < w1.len() && is_exit_event(#[trigger] w1[i]) && is_exit_event(
                #[trigger] w1[j],
            ) && w1[i].pid == w1[j].pid implies i == j by {
            if i < w0.len() {
                assert(w1[i] == w0[i]);
            }
            if j < w0.len() {
                assert(w1[j] == w0[j]);
            }
        }
    } else {
        assert(w1 == w0);
        assert forall|i: int| 0 <= i < w1.len() && is_exit_event(#[trigger] w1[i]) implies {
            let c = w1[i].pid;
            &&& p1.contains_key(c)
            &&& p1[c].parent == Some(p)
            &&& p1[c].threads@.len() == 0
        } by {
            assert(w1[i] == w0[i]);
        }
    }
}

/// One look at a wait list: an answer, or nothing yet and the waiter
/// should sleep until the list changes.
pub enum WaitPoll {
    Ready(Result<Option<WaitObject>, u32>),
    Block,
}

/// The table of all threads, processes, process groups and sessions.
pub struct ProcessList {
    init: Option<u32>,
    threads: BTreeMap<u32, u32>,
    processes: BTreeMap<u32, Process>,
    pgroups: BTreeMap<u32, ProcessGroup>,
    sessions: BTreeMap<u32, Session>,
}

impl ProcessList {
    /// The processes by pid.
    pub closed spec fn proc_map(&self) -> Map<u32, Process> {
        self.processes@
    }

    /// The process groups by pgid.
    pub closed spec fn group_map(&self) -> Map<u32, ProcessGroup> {
        self.pgroups@
    }

    /// The sessions by sid.
    pub closed spec fn session_map(&self) -> Map<u32, Session> {
        self.sessions@
    }

    /// The process of each registered thread.
    pub closed spec fn thread_map(&self) -> Map<u32, u32> {
        self.threads@
    }

    /// The pid of the init process, once it is set.
    pub closed spec fn init_pid(&self) -> Option<u32> {
        self.init
    }

    /// The table is consistent.
    pub open spec fn wf(&self) -> bool {
        &&& procs_wf(self.proc_map(), self.group_map(), self.session_map(), self.thread_map())
        &&& groups_wf(self.proc_map(), self.group_map(), self.session_map())
        &&& sessions_wf(self.group_map(), self.session_map())
        &&& family_wf(self.proc_map())
        &&& waits_wf(self.proc_map())
        &&& threads_distinct(self.proc_map(), self.thread_map())
        &&& (self.init_pid() matches Some(i) ==> self.proc_map().contains_key(i)
            && self.proc_map()[i].parent is None && self.proc_map()[i].threads@.len() > 0)
    }

    /// Take process `pid` out of its group; drop the group when it is left
    /// empty, and its session when that is left without groups.
    fn detach(&mut self, pid: u32)
        requires
            old(self).proc_map().contains_key(pid),
            old(self).group_map().contains_key(old(self).proc_map()[pid].pgid),
            old(self).session_map().contains_key(
                old(self).group_map()[old(self).proc_map()[pid].pgid].session,
            ),
            old(self).group_map()[old(self).proc_map()[pid].pgid].pgid == old(self).proc_map()[pid].pgid,
            old(self).session_map()[old(self).group_map()[old(self).proc_map()[pid].pgid].session].sid
                == old(self).group_map()[old(self).proc_map()[pid].pgid].session,
        ensures
            detached(*old(self), *final(self), pid),
    {
        let ghost l0 = *self;
        let g = match self.processes.get(&pid) {
            Some(p) => p.pgid,
            None => vstd::pervasive::unreached(),
        };
        let mut grp = match self.pgroups.remove(&g) {
            Some(x) => x,
            None => vstd::pervasive::unreached(),
        };
        let rest = vec_without(&grp.processes, pid);
        let s = grp.session;
        if rest.len() > 0 {
            grp.processes = rest;
            self.pgroups.insert(g, grp);
            proof {
                assert(rest@.contains(rest@[0]));
                let y = rest@[0];
                assert(l0.group_map()[g].processes@.contains(y) && y != pid);
                assert(self.session_map() =~= l0.session_map());
                assert(self.group_map().dom() =~= l0.group_map().dom());
            }
        } else {
            proof {
                lemma_empty_iff(rest@);
                assert(self.group_map() =~= l0.group_map().remove(g));
                if exists|y: u32| l0.group_map()[g].processes@.contains(y) && y != pid {
                    let y = choose|y: u32| l0.group_map()[g].processes@.contains(y) && y != pid;
                    assert(rest@.contains(y));
                }
            }
            let mut sess = match self.sessions.remove(&s) {
                Some(x) => x,
                None => vstd::pervasive::unreached(),
            };
            let left = vec_without(&sess.groups, g);
            if left.len() > 0 {
                sess.groups = left;
                self.sessions.insert(s, sess);
                proof {
                    assert(left@.contains(left@[0]));
                    let h = left@[0];
                    assert(l0.session_map()[s].groups@.contains(h) && h != g);
                    assert(self.session_map().dom() =~= l0.session_map().dom());
                }
            } else {
                proof {
                    lemma_empty_iff(left@);
                    assert(self.session_map() =~= l0.session_map().remove(s));
                    if exists|h: u32| l0.session_map()[s].groups@.contains(h) && h != g {
                        let h = choose|h: u32| l0.session_map()[s].groups@.contains(h) && h != g;
                        assert(left@.contains(h));
                    }
                }
            }
        }
    }

    /// Move process `pid` to process group `pgid` of its session: to an
    /// existing group, or to a new one when `pgid` is its own pid. `EPERM`
    /// when `setpgid_refused`; nothing changes then.
    pub fn do_setpgid(&mut self, pid: u32, pgid: u32) -> (r: Result<(), u32>)
        requires
            old(self).wf(),
            old(self).proc_map().contains_key(pid),
        ensures
            final(self).wf(),
            r is Err <==> setpgid_refused(*old(self), pid, pgid),
            r is Err ==> r == Err::<(), u32>(EPERM) && *final(self) == *old(self),
            r is Ok ==> regrouped(*old(self), *final(self), pid, pgid),
    {
        let (sid, g) = match self.processes.get(&pid) {
            Some(p) => (p.sid, p.pgid),
            None => vstd::pervasive::unreached(),
        };
        if sid == pid {
            return Err(EPERM);
        }
        let ghost l0 = *self;
        let found: Option<u32> = match self.pgroups.get(&pgid) {
            Some(ng) => Some(ng.session),
            None => None,
        };
        match found {
            Some(gs) => {
                if gs != sid {
                    return Err(EPERM);
                }
                if pgid == g {
                    proof {
                        assert(self.proc_map()[pid].pgid == pgid);
                    }
                    return Ok(());
                }
                let mut ng = match self.pgroups.remove(&pgid) {
                    Some(x) => x,
                    None => vstd::pervasive::unreached(),
                };
                ng.processes.push(pid);
                self.pgroups.insert(pgid, ng);
                proof {
                    assert(self.group_map().dom() =~= l0.group_map().dom());
                }
            },
            None => {
                if pgid != pid {
                    return Err(EPERM);
                }
                let mut members: Vec<u32> = Vec::new();
                members.push(pid);
                self.pgroups.insert(pid, ProcessGroup { pgid: pid, session: sid, processes: members });
                let mut sess = match self.sessions.remove(&sid) {
                    Some(x) => x,
                    None => vstd::pervasive::unreached(),
                };
                sess.groups.push(pid);
                self.sessions.insert(sid, sess);
                proof {
                    assert(self.session_map().dom() =~= l0.session_map().dom());
                }
            },
        }
        let ghost l1 = *self;
        proof {
            assert(l0.group_map()[g].session == sid);
            assert(l1.group_map()[g] == l0.group_map()[g]);
        }
        self.detach(pid);
        let ghost l2 = *self;
        let mut p = match self.processes.remove(&pid) {
            Some(x) => x,
            None => vstd::pervasive::unreached(),
        };
        p.pgid = pgid;
        self.processes.insert(pid, p);
        proof {
            assert(self.proc_map().dom() =~= l2.proc_map().dom());
            lemma_regroup_wf(l0, l1, l2, *self, pid, pgid);
        }
        Ok(())
    }

    /// `setpgid` issued by process `caller` for process `pid`: the caller
    /// itself, or one of its children in its session. `ESRCH` for a process
    /// that is neither, `EPERM` for a child of another session; otherwise
    /// as `do_setpgid` on `pid`.
    pub fn setpgid(&mut self, caller: u32, pid: u32, pgid: u32) -> (r: Result<(), u32>)
        requires
            old(self).wf(),
            old(self).proc_map().contains_key(caller),
        ensures
            final(self).wf(),
            pid != caller && !old(self).proc_map()[caller].children@.contains(pid) ==> r == Err::<
                (),
                u32,
            >(ESRCH) && *final(self) == *old(self),
            pid != caller && old(self).proc_map()[caller].children@.contains(pid)
                && old(self).proc_map()[pid].sid != old(self).proc_map()[caller].sid ==> r == Err::<
                (),
                u32,
            >(EPERM) && *final(self) == *old(self),
            (pid == caller || (old(self).proc_map()[caller].children@.contains(pid)
                && old(self).proc_map()[pid].sid == old(self).proc_map()[caller].sid)) ==> {
                &&& (r is Err <==> setpgid_refused(*old(self), pid, pgid))
                &&& (r is Err ==> r == Err::<(), u32>(EPERM) && *final(self) == *old(self))
                &&& (r is Ok ==> regrouped(*old(self), *final(self), pid, pgid))
            },
    {
        if pid == caller {
            return self.do_setpgid(caller, pgid);
        }
        let (is_child, caller_sid) = match self.processes.get(&caller) {
            Some(p) => (vec_has(&p.children, pid), p.sid),
            None => vstd::pervasive::unreached(),
        };
        if !is_child {
            return Err(ESRCH);
        }
        let child_sid = match self.processes.get(&pid) {
            Some(c) => c.sid,
            None => vstd::pervasive::unreached(),
        };
        if child_sid != caller_sid {
            return Err(EPERM);
        }
        self.do_setpgid(pid, pgid)
    }

    /// Process `pid` starts a session: it leaves its group and leads a new
    /// group in a new session, both numbered `pid`. `EPERM` when a session
    /// `pid` exists already; nothing changes then.
    pub fn setsid(&mut self, pid: u32) -> (r: Result<u32, u32>)
        requires
            old(self).wf(),
            old(self).proc_map().contains_key(pid),
            setsid_fits(*old(self), pid),
        ensures
            final(self).wf(),
            old(self).session_map().contains_key(pid) ==> r == Err::<u32, u32>(EPERM) && *final(self)
                == *old(self),
            !old(self).session_map().contains_key(pid) ==> r == Ok::<u32, u32>(pid) && resettled(
                *old(self),
                *final(self),
                pid,
            ),
    {
        if self.sessions.contains_key(&pid) {
            return Err(EPERM);
        }
        let ghost l0 = *self;
        proof {
            let g = l0.proc_map()[pid].pgid;
            assert(l0.group_map()[g].session == l0.proc_map()[pid].sid);
        }
        self.detach(pid);
        let ghost l1 = *self;
        proof {
            let g = l0.proc_map()[pid].pgid;
            if l0.group_map().contains_key(pid) {
                assert(l0.group_map()[pid].processes@.contains(l0.group_map()[pid].processes@[0]));
                assert(l0.proc_map()[pid].pgid == pid);
            }
            if exists|y: u32| l0.group_map()[g].processes@.contains(y) && y != pid {
                assert(g != pid);
            }
        }
        let mut members: Vec<u32> = Vec::new();
        members.push(pid);
        self.pgroups.insert(pid, ProcessGroup { pgid: pid, session: pid, processes: members });
        let mut groups: Vec<u32> = Vec::new();
        groups.push(pid);
        self.sessions.insert(
            pid,
            Session { sid: pid, groups, foreground: None, control_terminal: None },
        );
        let ghost l2 = *self;
        let mut p = match self.processes.remove(&pid) {
            Some(x) => x,
            None => vstd::pervasive::unreached(),
        };
        p.pgid = pid;
        p.sid = pid;
        self.processes.insert(pid, p);
        proof {
            assert(self.proc_map().dom() =~= l2.proc_map().dom());
            lemma_setsid_wf(l0, l1, l2, *self, pid);
        }
        Ok(pid)
    }

    /// Take process `pid`, which has no threads left, out of the table:
    /// its record and leader thread go, its parent stops listing it, and its
    /// group and session go when it was their last member.
    pub fn remove_process(&mut self, pid: u32)
        requires
            old(self).wf(),
            removable(*old(self), pid),
        ensures
            final(self).wf(),
            removed(*old(self), *final(self), pid),
    {
        let ghost l0 = *self;
        proof {
            let g = l0.proc_map()[pid].pgid;
            assert(l0.group_map()[g].session == l0.proc_map()[pid].sid);
        }
        self.detach(pid);
        let ghost l1 = *self;
        self.threads.remove(&pid);
        let p = match self.processes.remove(&pid) {
            Some(x) => x,
            None => vstd::pervasive::unreached(),
        };
        if let Some(pp) = p.parent {
            let mut par = match self.processes.remove(&pp) {
                Some(x) => x,
                None => vstd::pervasive::unreached(),
            };
            par.children = vec_without(&par.children, pid);
            self.processes.insert(pp, par);
        }
        proof {
            assert(self.proc_map().dom() =~= l1.proc_map().dom().remove(pid));
            lemma_remove_wf(l0, l1, *self, pid);
        }
    }

    /// The process group of the child of each event in the wait list of
    /// process `pid`.
    fn event_pgids(&self, pid: u32) -> (r: Vec<Option<u32>>)
        requires
            self.proc_map().contains_key(pid),
        ensures
            r@.len() == self.proc_map()[pid].wait_list@.len(),
            forall|i: int|
                0 <= i < r@.len() ==> #[trigger] r@[i] == pgid_in(
                    *self,
                    self.proc_map()[pid].wait_list@[i].pid,
                ),
    {
        let me = match self.processes.get(&pid) {
            Some(p) => p,
            None => vstd::pervasive::unreached(),
        };
        let mut r: Vec<Option<u32>> = Vec::new();
        let mut i: usize = 0;
        while i < me.wait_list.len()
            invariant
                *me == self.proc_map()[pid],
                i <= me.wait_list@.len(),
                r@.len() == i,
                forall|k: int| 0 <= k < i ==> #[trigger] r@[k] == pgid_in(*self, me.wait_list@[k].pid),
            decreases me.wait_list@.len() - i,
        {
            let c = me.wait_list[i].pid;
            let g = match self.processes.get(&c) {
                Some(cp) => Some(cp.pgid),
                None => None,
            };
            r.push(g);
            i = i + 1;
        }
        r
    }

    /// One look at the wait list of process `pid` for an event it wants:
    /// of child `wait_id`, stops only with `trace_stop`, continues only with
    /// `trace_continue`. The first such event is taken; an exit event also
    /// takes its child out of the table. Without one: `ECHILD` when `pid`
    /// has no children, `Ok(None)` with `no_block`, else `Block`.
    pub fn wait_step(
        &mut self,
        pid: u32,
        wait_id: WaitId,
        no_block: bool,
        trace_stop: bool,
        trace_continue: bool,
    ) -> (r: WaitPoll)
        requires
            old(self).wf(),
            old(self).proc_map().contains_key(pid),
        ensures
            final(self).wf(),
            (forall|i: int|
                0 <= i < old(self).proc_map()[pid].wait_list@.len() ==> !wanted_at(
                    *old(self),
                    pid,
                    i,
                    trace_stop,
                    trace_continue,
                    wait_id,
                )) ==> *final(self) == *old(self) && r == (if old(
                self,
            ).proc_map()[pid].children@.len() == 0 {
                WaitPoll::Ready(Err(ECHILD))
            } else if no_block {
                WaitPoll::Ready(Ok(None))
            } else {
                WaitPoll::Block
            }),
            (exists|i: int|
                0 <= i < old(self).proc_map()[pid].wait_list@.len() && wanted_at(
                    *old(self),
                    pid,
                    i,
                    trace_stop,
                    trace_continue,
                    wait_id,
                )) ==> r matches WaitPoll::Ready(Ok(Some(_))),
            r matches WaitPoll::Ready(Ok(Some(o))) ==> exists|i: int|
                first_wanted_at(*old(self), pid, i, trace_stop, trace_continue, wait_id)
                    && #[trigger] old(self).proc_map()[pid].wait_list@[i] == o && (!is_exit_event(o)
                    ==> event_taken(*old(self), *final(self), pid, i)) && (is_exit_event(o)
                    ==> reaped(*old(self), *final(self), pid, i, o.pid)),
    {
        let pgids = self.event_pgids(pid);
        let (found, has_children) = match self.processes.get(&pid) {
            Some(me) => (
                first_wanted(&me.wait_list, &pgids, trace_stop, trace_continue, wait_id),
                me.children.len() > 0,
            ),
            None => vstd::pervasive::unreached(),
        };
        match found {
            None => {
                proof {
                    assert forall|i: int|
                        0 <= i < old(self).proc_map()[pid].wait_list@.len() implies !wanted_at(
                        *old(self),
                        pid,
                        i,
                        trace_stop,
                        trace_continue,
                        wait_id,
                    ) by {
                        assert(pgids@[i] == pgid_in(*self, self.proc_map()[pid].wait_list@[i].pid));
                    }
                }
                if !has_children {
                    WaitPoll::Ready(Err(ECHILD))
                } else if no_block {
                    WaitPoll::Ready(Ok(None))
                } else {
                    WaitPoll::Block
                }
            },
            Some(i) => {
                let ghost l0 = *self;
                let ghost idx = i as int;
                assert(l0 == *old(self));
                proof {
                    assert(pgids@[idx] == pgid_in(l0, l0.proc_map()[pid].wait_list@[idx].pid));
                    assert(wanted_at(l0, pid, idx, trace_stop, trace_continue, wait_id));
                    assert forall|j: int| 0 <= j < idx implies !wanted_at(
                        l0,
                        pid,
                        j,
                        trace_stop,
                        trace_continue,
                        wait_id,
                    ) by {
                        assert(pgids@[j] == pgid_in(l0, l0.proc_map()[pid].wait_list@[j].pid));
                    }
                }
                let mut me = match self.processes.remove(&pid) {
                    Some(x) => x,
                    None => vstd::pervasive::unreached(),
                };
                let o = me.wait_list.remove(i);
                self.processes.insert(pid, me);
                proof {
                    assert(self.proc_map().dom() =~= l0.proc_map().dom());
                    lemma_take_event_wf(l0, *self, pid, idx);
                }
                let ghost l1 = *self;
                proof {
                    assert(l0.proc_map()[pid].wait_list@[idx] == o);
                    assert(first_wanted_at(l0, pid, idx, trace_stop, trace_continue, wait_id));
                }
                if o.stopped().is_some() || o.is_continue() {
                    proof {
                        assert(event_taken(l0, *self, pid, idx));
                        assert(!is_exit_event(o));
                    }
                    WaitPoll::Ready(Ok(Some(o)))
                } else {
                    self.remove_process(o.pid);
                    proof {
                        assert(reaped(l0, *self, pid, idx, o.pid)) by {
                            assert(o.pid != pid);
                            assert(l1.proc_map()[o.pid].parent == Some(pid));
                            assert(l0.proc_map()[pid].children@.contains(o.pid));
                        }
                        assert(is_exit_event(o));
                        assert(!is_exit_event(o) ==> event_taken(l0, *self, pid, idx));
                    }
                    WaitPoll::Ready(Ok(Some(o)))
                }
            },
        }
    }

    /// Thread `tid` of process `pid` exits with `exit_status`. With other
    /// threads left only the thread goes. The last thread makes the process
    /// a zombie: a session it leads drops its control terminal, its
    /// children become init's, its pending exit events go to init, and its
    /// parent gets its exit event. `is_exiting_group` changes nothing.
    #[verifier::rlimit(80)]
    pub fn do_exit(&mut self, pid: u32, tid: u32, exit_status: WaitType, is_exiting_group: bool) -> (r: ExitOutcome)
        requires
            old(self).wf(),
            exit_allowed(*old(self), pid, tid, exit_status),
        ensures
            final(self).wf(),
            r.last_thread == (old(self).proc_map()[pid].threads@.len() == 1),
            !r.last_thread ==> thread_exited(*old(self), *final(self), pid, tid) && r.dropped_terminal is None
                && !r.notify_init && r.parent_signal is None,
            r.last_thread ==> {
                &&& process_exited(*old(self), *final(self), pid, exit_status)
                &&& r.dropped_terminal == (if old(self).proc_map()[pid].sid == pid {
                    old(self).session_map()[pid].control_terminal
                } else {
                    None
                })
                &&& r.notify_init == (exit_events(old(self).proc_map()[pid].wait_list@).len() > 0)
                &&& r.parent_signal == (match old(self).proc_map()[pid].exit_signal {
                    Some(s) => Some((old(self).proc_map()[pid].parent->0, s)),
                    None => None,
                })
            },
    {
        let ghost l0 = *self;
        let init = self.init_process();
        let mut me = match self.processes.remove(&pid) {
            Some(x) => x,
            None => vstd::pervasive::unreached(),
        };
        if me.threads.len() != 1 {
            let k = vec_index_of(&me.threads, tid);
            me.threads.remove(k);
            self.processes.insert(pid, me);
            proof {
                assert(self.proc_map().dom() =~= l0.proc_map().dom());
                let s0 = l0.proc_map()[pid].threads@;
                let s1 = self.proc_map()[pid].threads@;
                assert(s1 == s0.remove(k as int));
                assert(!s1.contains(tid)) by {
                    if s1.contains(tid) {
                        let i = choose|i: int| 0 <= i < s1.len() && s1[i] == tid;
                        let i0 = if i < k { i } else { i + 1 };
                        assert(s0[i0] == tid && s0[k as int] == tid && i0 != k);
                    }
                }
                assert(thread_exited(l0, *self, pid, tid));
                lemma_thread_exit_wf(l0, *self, pid, tid);
            }
            return ExitOutcome {
                last_thread: false,
                dropped_terminal: None,
                notify_init: false,
                parent_signal: None,
            };
        }
        let mut kids: Vec<u32> = Vec::new();
        std::mem::swap(&mut kids, &mut me.children);
        let mut waits: Vec<WaitObject> = Vec::new();
        std::mem::swap(&mut waits, &mut me.wait_list);
        me.threads = Vec::new();
        let pp = match me.parent {
            Some(x) => x,
            None => vstd::pervasive::unreached(),
        };
        let sig = me.exit_signal;
        let sid = me.sid;
        self.processes.insert(pid, me);
        proof {
            assert(self.proc_map().dom() =~= l0.proc_map().dom());
        }
        let mut dropped: Option<u32> = None;
        if sid == pid {
            let mut sess = match self.sessions.remove(&pid) {
                Some(x) => x,
                None => vstd::pervasive::unreached(),
            };
            dropped = sess.control_terminal;
            sess.control_terminal = None;
            sess.foreground = None;
            self.sessions.insert(pid, sess);
        }
        let passed = passed_on(&waits);
        let mut ini = match self.processes.remove(&init) {
            Some(x) => x,
            None => vstd::pervasive::unreached(),
        };
        vec_extend(&mut ini.children, &kids);
        vec_extend(&mut ini.wait_list, &passed);
        self.processes.insert(init, ini);
        proof {
            assert(self.proc_map().dom() =~= l0.proc_map().dom());
        }
        let ghost lm = *self;
        let mut i: usize = 0;
        while i < kids.len()
            invariant
                i <= kids@.len(),
                kids@ == l0.proc_map()[pid].children@,
                l0.wf(),
                l0.proc_map().contains_key(pid),
                lm.proc_map().dom() == l0.proc_map().dom(),
                self.proc_map().dom() == lm.proc_map().dom(),
                forall|q: u32|
                    #[trigger] lm.proc_map().contains_key(q) ==> same_but_parent(self.proc_map()[q], lm.proc_map()[q])
                        && self.proc_map()[q].parent == (if kids@.subrange(0, i as int).contains(q) {
                        Some(init)
                    } else {
                        lm.proc_map()[q].parent
                    }),
                self.group_map() == lm.group_map(),
                self.session_map() == lm.session_map(),
                self.thread_map() == lm.thread_map(),
                self.init_pid() == lm.init_pid(),
            decreases kids@.len() - i,
        {
            let c = kids[i];
            proof {
                assert(l0.proc_map()[pid].children@[i as int] == c);
                assert(l0.proc_map()[pid].children@.contains(c));
                assert(l0.proc_map().contains_key(c));
            }
            let mut rec = match self.processes.remove(&c) {
                Some(x) => x,
                None => vstd::pervasive::unreached(),
            };
            let ghost prev = *self;
            rec.parent = Some(init);
            self.processes.insert(c, rec);
            proof {
                assert(self.proc_map().dom() =~= lm.proc_map().dom());
                let s0 = kids@.subrange(0, i as int);
                let s1 = kids@.subrange(0, i + 1);
                assert(s1 =~= s0.push(c));
                assert forall|q: u32| #[trigger] lm.proc_map().contains_key(q) implies same_but_parent(self.proc_map()[q], lm.proc_map()[q])
                    && self.proc_map()[q].parent == (if s1.contains(q) {
                    Some(init)
                } else {
                    lm.proc_map()[q].parent
                }) by {
                    assert(s1[s0.len() as int] == c);
                    if q != c {
                        assert(self.proc_map()[q] == prev.proc_map()[q]);
                        if s1.contains(q) {
                            let k = choose|k: int| 0 <= k < s1.len() && s1[k] == q;
                            assert(s0[k] == q);
                        }
                        if s0.contains(q) {
                            let k = choose|k: int| 0 <= k < s0.len() && s0[k] == q;
                            assert(s1[k] == q);
                        }
                    }
                }
            }
            i = i + 1;
        }
        proof {
            assert(kids@.subrange(0, kids@.len() as int) =~= kids@);
            assert(l0.proc_map().contains_key(pp));
        }
        let mut par = match self.processes.remove(&pp) {
            Some(x) => x,
            None => vstd::pervasive::unreached(),
        };
        par.wait_list.push(WaitObject { pid, code: exit_status });
        self.processes.insert(pp, par);
        proof {
            assert(self.proc_map().dom() =~= l0.proc_map().dom());
            let a = l0.proc_map()[init].children@;
            let b = l0.proc_map()[pid].children@;
            assert(self.proc_map()[init].children@ == a + b);
            assert forall|y: u32| #[trigger] self.proc_map()[init].children@.contains(y) <==> (a.contains(y) || b.contains(y)) by {
                let ab = a + b;
                if ab.contains(y) {
                    let k = choose|k: int| 0 <= k < ab.len() && ab[k] == y;
                    if k < a.len() {
                        assert(a[k] == y);
                    } else {
                        assert(b[k - a.len()] == y);
                    }
                }
                if a.contains(y) {
                    let k = choose|k: int| 0 <= k < a.len() && a[k] == y;
                    assert(ab[k] == y);
                }
                if b.contains(y) {
                    let k = choose|k: int| 0 <= k < b.len() && b[k] == y;
                    assert(ab[k + a.len()] == y);
                }
            }
            let ev = WaitObject { pid, code: exit_status };
            let wa = l0.proc_map()[init].wait_list@ + exit_events(l0.proc_map()[pid].wait_list@);
            assert(lm.proc_map()[init].wait_list@ == wa);
            if pp == init {
                assert(self.proc_map()[init].wait_list@ =~= wa + seq![ev]);
            } else {
                assert(self.proc_map()[init].wait_list@ =~= wa + Seq::<WaitObject>::empty());
            }
            assert(process_exited(l0, *self, pid, exit_status));
            lemma_exit_wf(l0, *self, pid, exit_status);
        }
        let parent_signal = match sig {
            Some(s) => Some((pp, s)),
            None => None,
        };
        ExitOutcome { last_thread: true, dropped_terminal: dropped, notify_init: passed.len() > 0, parent_signal }
    }

    /// Queue a stop or continue event `o` about a child of process `pid`
    /// in its wait list. (Exit events are queued by `do_exit`.)
    pub fn notify(&mut self, pid: u32, o: WaitObject)
        requires
            old(self).wf(),
            old(self).proc_map().contains_key(pid),
            !is_exit_event(o),
        ensures
            final(self).wf(),
            final(self).proc_map().dom() == old(self).proc_map().dom(),
            forall|q: u32|
                old(self).proc_map().contains_key(q) && q != pid ==> #[trigger] final(self).proc_map()[q]
                    == old(self).proc_map()[q],
            same_scalars(final(self).proc_map()[pid], old(self).proc_map()[pid]),
            final(self).proc_map()[pid].children@ == old(self).proc_map()[pid].children@,
            final(self).proc_map()[pid].threads@ == old(self).proc_map()[pid].threads@,
            final(self).proc_map()[pid].wait_list@ == old(self).proc_map()[pid].wait_list@.push(o),
            final(self).group_map() == old(self).group_map(),
            final(self).session_map() == old(self).session_map(),
            final(self).thread_map() == old(self).thread_map(),
            final(self).init_pid() == old(self).init_pid(),
    {
        let ghost l0 = *self;
        let mut me = match self.processes.remove(&pid) {
            Some(x) => x,
            None => vstd::pervasive::unreached(),
        };
        me.wait_list.push(o);
        self.processes.insert(pid, me);
        proof {
            let p0 = l0.proc_map();
            let p1 = self.proc_map();
            assert(p1.dom() =~= p0.dom());
            assert forall|p: u32| #[trigger] p1.contains_key(p) implies {
                &&& forall|i: int|
                    0 <= i < p1[p].wait_list@.len() && is_exit_event(#[trigger] p1[p].wait_list@[i]) ==> {
                        let c = p1[p].wait_list@[i].pid;
                        &&& p1.contains_key(c)
                        &&& p1[c].parent == Some(p)
                        &&& p1[c].threads@.len() == 0
                    }
                &&& forall|i: int, j: int|
                    0 <= i < p1[p].wait_list@.len() && 0 <= j < p1[p].wait_list@.len() && is_exit_event(
                        #[trigger] p1[p].wait_list@[i],
                    ) && is_exit_event(#[trigger] p1[p].wait_list@[j]) && p1[p].wait_list@[i].pid
                        == p1[p].wait_list@[j].pid ==> i == j
            } by {
                let w0 = p0[p].wait_list@;
                let w1 = p1[p].wait_list@;
                assert forall|i: int| 0 <= i < w1.len() && is_exit_event(#[trigger] w1[i]) implies {
                    let c = w1[i].pid;
                    &&& p1.contains_key(c)
                    &&& p1[c].parent == Some(p)
                    &&& p1[c].threads@.len() == 0
                } by {
                    if i < w0.len() {
                        assert(w1[i] == w0[i]);
                    }
                }
                assert forall|i: int, j: int|
                    0 <= i < w1.len() && 0 <= j < w1.len() && is_exit_event(#[trigger] w1[i]) && is_exit_event(
                        #[trigger] w1[j],
                    ) && w1[i].pid == w1[j].pid implies i == j by {
                    if i < w0.len() {
                        assert(w1[i] == w0[i]);
                    }
                    if j < w0.len() {
                        assert(w1[j] == w0[j]);
                    }
                }
            }
        }
    }

    /// Make group `pgid` the foreground group of session `sid`; `EPERM`
    /// when the group is not one of the session's.
    pub fn set_foreground_pgid(&mut self, sid: u32, pgid: u32) -> (r: Result<(), u32>)
        requires
            old(self).wf(),
            old(self).session_map().contains_key(sid),
        ensures
            final(self).wf(),
            !old(self).session_map()[sid].groups@.contains(pgid) ==> r == Err::<(), u32>(EPERM)
                && *final(self) == *old(self),
            old(self).session_map()[sid].groups@.contains(pgid) ==> {
                &&& r is Ok
                &&& final(self).session_map().dom() == old(self).session_map().dom()
                &&& forall|t: u32| old(self).session_map().contains_key(t) && t != sid ==> #[trigger] final(self).session_map()[t] == old(self).session_map()[t]
                &&& final(self).session_map()[sid].sid == sid
                &&& final(self).session_map()[sid].groups@ == old(self).session_map()[sid].groups@
                &&& final(self).session_map()[sid].control_terminal == old(self).session_map()[sid].control_terminal
                &&& final(self).session_map()[sid].foreground == Some(pgid)
                &&& final(self).proc_map() == old(self).proc_map()
                &&& final(self).group_map() == old(self).group_map()
                &&& final(self).thread_map() == old(self).thread_map()
                &&& final(self).init_pid() == old(self).init_pid()
            },
    {
        let ok = match self.sessions.get(&sid) {
            Some(se) => vec_has(&se.groups, pgid),
            None => vstd::pervasive::unreached(),
        };
        if !ok {
            return Err(EPERM);
        }
        let ghost l0 = *self;
        let mut se = match self.sessions.remove(&sid) {
            Some(x) => x,
            None => vstd::pervasive::unreached(),
        };
        se.foreground = Some(pgid);
        self.sessions.insert(sid, se);
        proof {
            assert(self.session_map().dom() =~= l0.session_map().dom());
        }
        Ok(())
    }

    /// The foreground group of session `sid`, while that group lives.
    pub fn foreground(&self, sid: u32) -> (r: Option<u32>)
        requires
            self.session_map().contains_key(sid),
        ensures
            r == (match self.session_map()[sid].foreground {
                Some(g) => if self.group_map().contains_key(g) {
                    Some(g)
                } else {
                    None
                },
                None => None,
            }),
    {
        let fg = match self.sessions.get(&sid) {
            Some(se) => se.foreground,
            None => vstd::pervasive::unreached(),
        };
        match fg {
            Some(g) => if self.pgroups.contains_key(&g) {
                Some(g)
            } else {
                None
            },
            None => None,
        }
    }

    /// The session of `terminal`: the one it records, while it lives.
    pub open spec fn terminal_session(&self, terminal: Terminal) -> Option<u32> {
        match terminal.session_link() {
            Some(s) => if self.session_map().contains_key(s) {
                Some(s)
            } else {
                None
            },
            None => None,
        }
    }

    /// The foreground group of `terminal` (`TIOCGPGRP`): that of its
    /// session; `ENOTTY` when it has no live session or the session no
    /// live foreground group.
    pub fn terminal_foreground(&self, terminal: &Terminal) -> (r: Result<u32, u32>)
        ensures
            r == (match self.terminal_session(*terminal) {
                Some(s) => match self.session_map()[s].foreground {
                    Some(g) => if self.group_map().contains_key(g) {
                        Ok::<u32, u32>(g)
                    } else {
                        Err::<u32, u32>(ENOTTY)
                    },
                    None => Err::<u32, u32>(ENOTTY),
                },
                None => Err::<u32, u32>(ENOTTY),
            }),
    {
        let s = match terminal.session() {
            Some(s) => s,
            None => return Err(ENOTTY),
        };
        if !self.sessions.contains_key(&s) {
            return Err(ENOTTY);
        }
        match self.foreground(s) {
            Some(g) => Ok(g),
            None => Err(ENOTTY),
        }
    }

    /// Make group `pgid` the foreground group of `terminal`'s session
    /// (`TIOCSPGRP`): `ENOTTY` when the terminal has no live session,
    /// otherwise as `set_foreground_pgid`.
    pub fn terminal_set_foreground(&mut self, terminal: &Terminal, pgid: u32) -> (r: Result<(), u32>)
        requires
            old(self).wf(),
        ensures
            final(self).wf(),
            old(self).terminal_session(*terminal) is None ==> r == Err::<(), u32>(ENOTTY)
                && *final(self) == *old(self),
            old(self).terminal_session(*terminal) matches Some(s) ==> {
                &&& !old(self).session_map()[s].groups@.contains(pgid) ==> r == Err::<(), u32>(EPERM)
                    && *final(self) == *old(self)
                &&& old(self).session_map()[s].groups@.contains(pgid) ==> {
                    &&& r is Ok
                    &&& final(self).session_map().dom() == old(self).session_map().dom()
                    &&& forall|t: u32| old(self).session_map().contains_key(t) && t != s ==> #[trigger] final(self).session_map()[t] == old(self).session_map()[t]
                    &&& final(self).session_map()[s].sid == s
                    &&& final(self).session_map()[s].groups@ == old(self).session_map()[s].groups@
                    &&& final(self).session_map()[s].control_terminal == old(self).session_map()[s].control_terminal
                    &&& final(self).session_map()[s].foreground == Some(pgid)
                    &&& final(self).proc_map() == old(self).proc_map()
                    &&& final(self).group_map() == old(self).group_map()
                    &&& final(self).thread_map() == old(self).thread_map()
                    &&& final(self).init_pid() == old(self).init_pid()
                }
            },
    {
        let s = match terminal.session() {
            Some(s) => s,
            None => return Err(ENOTTY),
        };
        if !self.sessions.contains_key(&s) {
            return Err(ENOTTY);
        }
        self.set_foreground_pgid(s, pgid)
    }

    /// Session `sid` lets go of its control terminal, which it returns,
    /// and of its foreground group.
    pub fn drop_control_terminal(&mut self, sid: u32) -> (r: Option<u32>)
        requires
            old(self).wf(),
            old(self).session_map().contains_key(sid),
        ensures
            final(self).wf(),
            r == old(self).session_map()[sid].control_terminal,
            final(self).session_map().dom() == old(self).session_map().dom(),
            forall|t: u32| old(self).session_map().contains_key(t) && t != sid ==> #[trigger] final(self).session_map()[t] == old(self).session_map()[t],
            final(self).session_map()[sid].sid == sid,
            final(self).session_map()[sid].groups@ == old(self).session_map()[sid].groups@,
            final(self).session_map()[sid].control_terminal is None,
            final(self).session_map()[sid].foreground is None,
            final(self).proc_map() == old(self).proc_map(),
            final(self).group_map() == old(self).group_map(),
            final(self).thread_map() == old(self).thread_map(),
            final(self).init_pid() == old(self).init_pid(),
    {
        let ghost l0 = *self;
        let mut se = match self.sessions.remove(&sid) {
            Some(x) => x,
            None => vstd::pervasive::unreached(),
        };
        let t = se.control_terminal;
        se.control_terminal = None;
        se.foreground = None;
        self.sessions.insert(sid, se);
        proof {
            assert(self.session_map().dom() =~= l0.session_map().dom());
        }
        t
    }

    /// Session leader `pid` takes `terminal` (numbered `term`) as its
    /// session's control terminal. A session that has one already succeeds
    /// only when the terminal records that session, else `EPERM`. A
    /// terminal recording another live session is taken from it only when
    /// `forced` (else `EPERM`): that session loses its control terminal and
    /// foreground group. On success the terminal records the leader's
    /// session, which has the terminal, and the leader's group in the
    /// foreground.
    pub fn set_control_terminal(&mut self, pid: u32, term: u32, terminal: &mut Terminal, forced: bool) -> (r:
        Result<(), u32>)
        requires
            old(self).wf(),
            old(self).proc_map().contains_key(pid),
            old(self).proc_map()[pid].sid == pid,
        ensures
            final(self).wf(),
            ({
                let l0 = *old(self);
                let sid = pid;
                let link = old(terminal).session_link();
                let taken = link matches Some(o) && l0.session_map().contains_key(o);
                &&& l0.session_map()[sid].control_terminal is Some ==> {
                    &&& r == (if link == Some(sid) {
                        Ok::<(), u32>(())
                    } else {
                        Err::<(), u32>(EPERM)
                    })
                    &&& *final(self) == l0
                    &&& *final(terminal) == *old(terminal)
                }
                &&& l0.session_map()[sid].control_terminal is None && taken && !forced ==> {
                    &&& r == Err::<(), u32>(EPERM)
                    &&& *final(self) == l0
                    &&& *final(terminal) == *old(terminal)
                }
                &&& l0.session_map()[sid].control_terminal is None && (!taken || forced) ==> {
                    &&& r is Ok
                    &&& final(terminal).termio() == old(terminal).termio()
                    &&& final(terminal).buffer() == old(terminal).buffer()
                    &&& final(terminal).session_link() == Some(sid)
                    &&& final(self).session_map().dom() == l0.session_map().dom()
                    &&& final(self).session_map()[sid].sid == sid
                    &&& final(self).session_map()[sid].groups@ == l0.session_map()[sid].groups@
                    &&& final(self).session_map()[sid].control_terminal == Some(term)
                    &&& final(self).session_map()[sid].foreground == Some(l0.proc_map()[pid].pgid)
                    &&& (taken && link->0 != sid ==> {
                        &&& final(self).session_map()[link->0].sid == link->0
                        &&& final(self).session_map()[link->0].groups@ == l0.session_map()[link->0].groups@
                        &&& final(self).session_map()[link->0].control_terminal is None
                        &&& final(self).session_map()[link->0].foreground is None
                    })
                    &&& forall|t: u32|
                        l0.session_map().contains_key(t) && t != sid && !(taken && t == link->0)
                            ==> #[trigger] final(self).session_map()[t] == l0.session_map()[t]
                    &&& final(self).proc_map() == l0.proc_map()
                    &&& final(self).group_map() == l0.group_map()
                    &&& final(self).thread_map() == l0.thread_map()
                    &&& final(self).init_pid() == l0.init_pid()
                }
            }),
    {
        let ghost l0 = *self;
        let pgid = match self.processes.get(&pid) {
            Some(p) => p.pgid,
            None => vstd::pervasive::unreached(),
        };
        let has = match self.sessions.get(&pid) {
            Some(se) => se.control_terminal.is_some(),
            None => vstd::pervasive::unreached(),
        };
        let link = terminal.session();
        if has {
            return match link {
                Some(s) => if s == pid {
                    Ok(())
                } else {
                    Err(EPERM)
                },
                None => Err(EPERM),
            };
        }
        let taken = match link {
            Some(o) => self.sessions.contains_key(&o),
            None => false,
        };
        if taken {
            if !forced {
                return Err(EPERM);
            }
            let o = match link {
                Some(o) => o,
                None => vstd::pervasive::unreached(),
            };
            let _ = self.drop_control_terminal(o);
        }
        terminal.link_session(pid);
        let ghost l1 = *self;
        let mut se = match self.sessions.remove(&pid) {
            Some(x) => x,
            None => vstd::pervasive::unreached(),
        };
        se.control_terminal = Some(term);
        se.foreground = Some(pgid);
        self.sessions.insert(pid, se);
        proof {
            assert(self.session_map().dom() =~= l0.session_map().dom());
        }
        Ok(())
    }

    /// An empty table.
    pub fn new() -> (r: ProcessList)
        ensures
            r.wf(),
            r.proc_map() == Map::<u32, Process>::empty(),
            r.group_map() == Map::<u32, ProcessGroup>::empty(),
            r.session_map() == Map::<u32, Session>::empty(),
            r.thread_map() == Map::<u32, u32>::empty(),
            r.init_pid() is None,
    {
        ProcessList {
            init: None,
            threads: BTreeMap::new(),
            processes: BTreeMap::new(),
            pgroups: BTreeMap::new(),
            sessions: BTreeMap::new(),
        }
    }

    /// The process `pid`, if it is in the table.
    pub fn try_find_process(&self, pid: u32) -> (r: Option<&Process>)
        ensures
            match r {
                Some(p) => self.proc_map().contains_key(pid) && *p == self.proc_map()[pid],
                None => !self.proc_map().contains_key(pid),
            },
    {
        self.processes.get(&pid)
    }

    /// The process group `pgid`, if it is in the table.
    pub fn try_find_pgroup(&self, pgid: u32) -> (r: Option<&ProcessGroup>)
        ensures
            match r {
                Some(g) => self.group_map().contains_key(pgid) && *g == self.group_map()[pgid],
                None => !self.group_map().contains_key(pgid),
            },
    {
        self.pgroups.get(&pgid)
    }

    /// The session `sid`, if it is in the table.
    pub fn try_find_session(&self, sid: u32) -> (r: Option<&Session>)
        ensures
            match r {
                Some(s) => self.session_map().contains_key(sid) && *s == self.session_map()[sid],
                None => !self.session_map().contains_key(sid),
            },
    {
        self.sessions.get(&sid)
    }

    /// The process of thread `tid`, if the thread is registered.
    pub fn try_find_thread(&self, tid: u32) -> (r: Option<u32>)
        ensures
            match r {
                Some(p) => self.thread_map().contains_key(tid) && p == self.thread_map()[tid],
                None => !self.thread_map().contains_key(tid),
            },
    {
        match self.threads.get(&tid) {
            Some(p) => Some(*p),
            None => None,
        }
    }

    /// The table side of `clone` with `args` by a thread of process `pid`:
    /// with `CLONE_THREAD` the new thread `new_id` joins `pid`; otherwise a
    /// new process `new_id` is built as a child of `pid` in its group and
    /// session, telling its parent the exit signal of `args` when it exits.
    /// Returns `new_id`.
    pub fn do_clone(&mut self, pid: u32, new_id: u32, args: &CloneArgs) -> (r: u32)
        requires
            old(self).wf(),
            old(self).proc_map().contains_key(pid),
            old(self).proc_map()[pid].threads@.len() > 0,
            !old(self).thread_map().contains_key(new_id),
        ensures
            final(self).wf(),
            r == new_id,
            args.flags & CLONE_THREAD != 0 ==> {
                &&& final(self).thread_map() == old(self).thread_map().insert(new_id, pid)
                &&& final(self).proc_map().dom() == old(self).proc_map().dom()
                &&& forall|q: u32|
                    old(self).proc_map().contains_key(q) && q != pid ==> #[trigger] final(self).proc_map()[q]
                        == old(self).proc_map()[q]
                &&& same_scalars(final(self).proc_map()[pid], old(self).proc_map()[pid])
                &&& final(self).proc_map()[pid].children@ == old(self).proc_map()[pid].children@
                &&& final(self).proc_map()[pid].wait_list@ == old(self).proc_map()[pid].wait_list@
                &&& final(self).proc_map()[pid].threads@ == old(self).proc_map()[pid].threads@.push(new_id)
                &&& final(self).group_map() == old(self).group_map()
                &&& final(self).session_map() == old(self).session_map()
                &&& final(self).init_pid() == old(self).init_pid()
            },
            args.flags & CLONE_THREAD == 0 ==> exists|b: ProcessBuilder|
                {
                    &&& b.spec_pid() == Some(new_id)
                    &&& b.spec_parent() == Some(pid)
                    &&& b.spec_pgroup() == Some(old(self).proc_map()[pid].pgid)
                    &&& b.spec_session() == Some(old(self).proc_map()[pid].sid)
                    &&& b.spec_exit_signal() == args.exit_signal
                    &&& #[trigger] b.built(*old(self), *final(self))
                },
    {
        if args.flags & CLONE_THREAD != 0 {
            self.add_thread(pid, new_id);
            return new_id;
        }
        let (pgid, sid) = match self.processes.get(&pid) {
            Some(p) => (p.pgid, p.sid),
            None => vstd::pervasive::unreached(),
        };
        let mut b = ProcessBuilder::new().pid(new_id).parent(pid).pgroup(pgid).session(sid);
        match args.exit_signal {
            Some(s) => {
                b = b.exit_signal(s);
            },
            None => {},
        }
        let ghost l0 = *self;
        let ghost gb = b;
        proof {
            assert(l0.group_map().contains_key(pgid));
            assert(!l0.proc_map().contains_key(new_id));
        }
        let r = b.build(self);
        proof {
            assert(gb.built(l0, *self));
        }
        r
    }

    /// `getsid` issued by process `caller`: the session of process `pid`,
    /// of the caller itself for 0; `ESRCH` when there is no such process.
    pub fn getsid(&self, caller: u32, pid: u32) -> (r: Result<u32, u32>)
        requires
            self.proc_map().contains_key(caller),
        ensures
            pid == 0 ==> r == Ok::<u32, u32>(self.proc_map()[caller].sid),
            pid != 0 && self.proc_map().contains_key(pid) ==> r == Ok::<u32, u32>(
                self.proc_map()[pid].sid,
            ),
            pid != 0 && !self.proc_map().contains_key(pid) ==> r == Err::<u32, u32>(ESRCH),
    {
        let target = if pid == 0 {
            caller
        } else {
            pid
        };
        match self.processes.get(&target) {
            Some(p) => Ok(p.sid),
            None => Err(ESRCH),
        }
    }

    /// `getpgid` issued by process `caller`: the group of process `pid`,
    /// of the caller itself for 0; `ESRCH` when there is no such process.
    pub fn getpgid(&self, caller: u32, pid: u32) -> (r: Result<u32, u32>)
        requires
            self.proc_map().contains_key(caller),
        ensures
            pid == 0 ==> r == Ok::<u32, u32>(self.proc_map()[caller].pgid),
            pid != 0 && self.proc_map().contains_key(pid) ==> r == Ok::<u32, u32>(
                self.proc_map()[pid].pgid,
            ),
            pid != 0 && !self.proc_map().contains_key(pid) ==> r == Err::<u32, u32>(ESRCH),
    {
        let target = if pid == 0 {
            caller
        } else {
            pid
        };
        match self.processes.get(&target) {
            Some(p) => Ok(p.pgid),
            None => Err(ESRCH),
        }
    }

    /// `tkill`: the signal numbered `sig` for thread `tid`; `ESRCH` when
    /// the thread is not registered, then `EINVAL` when `sig` is no signal.
    pub fn tkill_signal(&self, tid: u32, sig: u32) -> (r: Result<Signal, u32>)
        ensures
            !self.thread_map().contains_key(tid) ==> r == Err::<Signal, u32>(ESRCH),
            self.thread_map().contains_key(tid) && !valid_signal(sig) ==> r == Err::<Signal, u32>(
                EINVAL,
            ),
            self.thread_map().contains_key(tid) && valid_signal(sig) ==> (r matches Ok(s) && s@ == sig),
    {
        if !self.threads.contains_key(&tid) {
            return Err(ESRCH);
        }
        Signal::try_from_raw(sig)
    }

    /// Register thread `tid`, new in the table, as a thread of `pid`, a
    /// live process: the thread table maps it to `pid` and the process
    /// lists it after its other threads.
    pub fn add_thread(&mut self, pid: u32, tid: u32)
        requires
            old(self).wf(),
            old(self).proc_map().contains_key(pid),
            old(self).proc_map()[pid].threads@.len() > 0,
            !old(self).thread_map().contains_key(tid),
        ensures
            final(self).wf(),
            final(self).thread_map() == old(self).thread_map().insert(tid, pid),
            final(self).proc_map().dom() == old(self).proc_map().dom(),
            forall|q: u32|
                old(self).proc_map().contains_key(q) && q != pid ==> #[trigger] final(self).proc_map()[q]
                    == old(self).proc_map()[q],
            same_scalars(final(self).proc_map()[pid], old(self).proc_map()[pid]),
            final(self).proc_map()[pid].children@ == old(self).proc_map()[pid].children@,
            final(self).proc_map()[pid].wait_list@ == old(self).proc_map()[pid].wait_list@,
            final(self).proc_map()[pid].threads@ == old(self).proc_map()[pid].threads@.push(tid),
            final(self).group_map() == old(self).group_map(),
            final(self).session_map() == old(self).session_map(),
            final(self).init_pid() == old(self).init_pid(),
    {
        let ghost l0 = *self;
        let mut p = match self.processes.remove(&pid) {
            Some(x) => x,
            None => vstd::pervasive::unreached(),
        };
        p.threads.push(tid);
        self.processes.insert(pid, p);
        self.threads.insert(tid, pid);
        proof {
            assert(self.proc_map().dom() =~= l0.proc_map().dom());
            assert forall|q: u32| #[trigger] self.proc_map().contains_key(q) implies q != tid by {
                assert(l0.thread_map().contains_key(q));
            }
            assert forall|q: u32|
                #[trigger] self.proc_map().contains_key(q) && self.proc_map()[q].threads@.len()
                    == 0 implies self.proc_map()[q].children@.len() == 0 by {
                assert(l0.proc_map().contains_key(q));
            }
            let s0 = l0.proc_map()[pid].threads@;
            assert(!s0.contains(tid));
            assert forall|q: u32| #[trigger] self.proc_map().contains_key(q) implies self.proc_map()[q].threads@.no_duplicates() by {
                if q == pid {
                    let s1 = s0.push(tid);
                    assert forall|i: int, j: int| 0 <= i < s1.len() && 0 <= j < s1.len() && i != j implies s1[i] != s1[j] by {
                        if i == s0.len() {
                            assert(s0.contains(s1[j]));
                        } else if j == s0.len() {
                            assert(s0.contains(s1[i]));
                        }
                    }
                }
            }
            assert forall|q: u32, t: u32| self.proc_map().contains_key(q) && #[trigger] self.proc_map()[q].threads@.contains(t) implies self.thread_map().contains_key(t)
                && self.thread_map()[t] == q by {
                if q == pid {
                    if t != tid {
                        let i = choose|i: int| 0 <= i < s0.len() + 1 && s0.push(tid)[i] == t;
                        assert(s0[i] == t);
                        assert(s0.contains(t));
                    }
                } else {
                    assert(self.proc_map()[q] == l0.proc_map()[q]);
                    assert(t != tid);
                }
            }
        }
    }

    /// Make `pid`, a live process without parent, the init process; it can
    /// be set once.
    pub fn set_init_process(&mut self, pid: u32)
        requires
            old(self).wf(),
            old(self).init_pid() is None,
            old(self).proc_map().contains_key(pid),
            old(self).proc_map()[pid].parent is None,
            old(self).proc_map()[pid].threads@.len() > 0,
        ensures
            final(self).wf(),
            final(self).init_pid() == Some(pid),
            final(self).proc_map() == old(self).proc_map(),
            final(self).group_map() == old(self).group_map(),
            final(self).session_map() == old(self).session_map(),
            final(self).thread_map() == old(self).thread_map(),
    {
        self.init = Some(pid);
    }

    /// The pid of the init process, which must be set.
    pub fn init_process(&self) -> (r: u32)
        requires
            self.init_pid() is Some,
        ensures
            self.init_pid() == Some(r),
    {
        match self.init {
            Some(i) => i,
            None => vstd::pervasive::unreached(),
        }
    }
}

/// A child's exit status is what its parent's wait finds: after the last
/// thread of process `c` exited with `status`, the first event of its
/// parent's wait list that a wait for `c` (without stop or continue
/// events) wants exists, and it is `c`'s exit with `status`.
pub proof fn law_exit_status_is_waited(
    l0: ProcessList,
    l1: ProcessList,
    c: u32,
    tid: u32,
    status: WaitType,
)
    requires
        l0.wf(),
        exit_allowed(l0, c, tid, status),
        is_exit_event(WaitObject { pid: c, code: status }),
        l0.proc_map()[c].threads@.len() == 1,
        process_exited(l0, l1, c, status),
        l1.wf(),
    ensures
        ({
            let pp = l0.proc_map()[c].parent->0;
            &&& l1.proc_map().contains_key(pp)
            &&& exists|i: int| first_wanted_at(l1, pp, i, false, false, WaitId::Pid(c))
            &&& forall|i: int|
                first_wanted_at(l1, pp, i, false, false, WaitId::Pid(c)) ==> #[trigger] l1.proc_map()[pp].wait_list@[i]
                    == (WaitObject { pid: c, code: status })
        }),
{
    let pp = l0.proc_map()[c].parent->0;
    let init = l0.init_pid()->0;
    let ev = WaitObject { pid: c, code: status };
    assert(l0.proc_map().contains_key(pp));
    assert(l1.proc_map().contains_key(pp));
    let w = l1.proc_map()[pp].wait_list@;
    let k: int = if pp == init {
        let head = l0.proc_map()[init].wait_list@ + exit_events(l0.proc_map()[c].wait_list@);
        assert(w == head + seq![ev]);
        head.len() as int
    } else {
        assert(w == l0.proc_map()[pp].wait_list@.push(ev));
        l0.proc_map()[pp].wait_list@.len() as int
    };
    assert(0 <= k < w.len() && w[k] == ev);
    assert(wanted_at(l1, pp, k, false, false, WaitId::Pid(c)));
    let fi = choose|i: int| 0 <= i <= k && wanted_at(l1, pp, i, false, false, WaitId::Pid(c))
        && forall|j: int| 0 <= j < i ==> !wanted_at(l1, pp, j, false, false, WaitId::Pid(c));
    assert(exists|i: int| 0 <= i <= k && wanted_at(l1, pp, i, false, false, WaitId::Pid(c))
        && forall|j: int| 0 <= j < i ==> !wanted_at(l1, pp, j, false, false, WaitId::Pid(c))) by {
        lemma_first_wanted_exists(l1, pp, k, WaitId::Pid(c));
    }
    assert(first_wanted_at(l1, pp, fi, false, false, WaitId::Pid(c)));
    assert forall|i: int| first_wanted_at(l1, pp, i, false, false, WaitId::Pid(c)) implies #[trigger] l1.proc_map()[pp].wait_list@[i]
        == ev by {
        assert(is_exit_event(w[i]));
        assert(is_exit_event(w[k]));
        assert(w[i].pid == w[k].pid);
    }
}

/// Below a wanted event at `k` there is a first wanted event.
proof fn lemma_first_wanted_exists(l: ProcessList, pid: u32, k: int, id: WaitId)
    requires
        0 <= k,
        wanted_at(l, pid, k, false, false, id),
    ensures
        exists|i: int| 0 <= i <= k && wanted_at(l, pid, i, false, false, id)
            && forall|j: int| 0 <= j < i ==> !wanted_at(l, pid, j, false, false, id),
    decreases k,
{
    if exists|j: int| 0 <= j < k && wanted_at(l, pid, j, false, false, id) {
        let j = choose|j: int| 0 <= j < k && wanted_at(l, pid, j, false, false, id);
        lemma_first_wanted_exists(l, pid, j, id);
    } else {
        assert(0 <= k <= k && wanted_at(l, pid, k, false, false, id)
            && forall|j: int| 0 <= j < k ==> !wanted_at(l, pid, j, false, false, id));
    }
}

} // verus!
