//! Local port allocation of a network interface.
use crate::errno::EADDRINUSE;
use vstd::prelude::*;

verus! {

/// First port handed out for an unbound socket.
pub const IP_LOCAL_PORT_START: u16 = 32768;

/// Last port handed out for an unbound socket.
pub const IP_LOCAL_PORT_END: u16 = 60999;

#[derive(Clone, Copy, PartialEq, Eq, Structural, Debug)]
pub enum SocketType {
    Tcp,
    Udp,
}

/// The ports in use on an interface, per socket type.
pub struct UsedPorts {
    used: Vec<(SocketType, u16)>,
}

impl UsedPorts {
    /// Whether `port` is in use for `t`.
    pub closed spec fn in_use(&self, t: SocketType, port: u16) -> bool {
        self.used@.contains((t, port))
    }

    pub fn new() -> (r: UsedPorts)
        ensures
            forall|t: SocketType, p: u16| !r.in_use(t, p),
    {
        UsedPorts { used: Vec::new() }
    }

    fn contains(&self, t: SocketType, port: u16) -> (r: bool)
        ensures
            r == self.in_use(t, port),
    {
        let mut i: usize = 0;
        while i < self.used.len()
            invariant
                i <= self.used@.len(),
                forall|k: int| 0 <= k < i ==> self.used@[k] != (t, port),
            decreases self.used@.len() - i,
        {
            if self.used[i].0 == t && self.used[i].1 == port {
                assert(self.used@[i as int] == (t, port));
                return true;
            }
            i = i + 1;
        }
        false
    }

    /// Take the first free port of the local range for `t`.
    pub fn alloc_port(&mut self, t: SocketType) -> (r: Option<u16>)
        ensures
            r matches Some(p) ==> IP_LOCAL_PORT_START <= p <= IP_LOCAL_PORT_END && !old(self).in_use(t, p)
                && forall|q: u16| IP_LOCAL_PORT_START <= q < p ==> old(self).in_use(t, q),
            r matches Some(p) ==> forall|u: SocketType, q: u16|
                final(self).in_use(u, q) == (old(self).in_use(u, q) || (u == t && q == p)),
            r is None ==> forall|q: u16|
                IP_LOCAL_PORT_START <= q <= IP_LOCAL_PORT_END ==> old(self).in_use(t, q),
            r is None ==> forall|u: SocketType, q: u16| final(self).in_use(u, q) == old(self).in_use(u, q),
    {
        let mut port: u16 = IP_LOCAL_PORT_START;
        while port <= IP_LOCAL_PORT_END
            invariant
                IP_LOCAL_PORT_START <= port <= IP_LOCAL_PORT_END + 1,
                *self == *old(self),
                forall|q: u16| IP_LOCAL_PORT_START <= q < port ==> self.in_use(t, q),
            decreases IP_LOCAL_PORT_END + 1 - port,
        {
            if !self.contains(t, port) {
                self.used.push((t, port));
                proof {
                    assert forall|u: SocketType, q: u16| self.in_use(u, q) == (old(self).in_use(u, q) || (u == t && q == port)) by {
                        if self.used@.contains((u, q)) {
                            let k = choose|k: int| 0 <= k < self.used@.len() && self.used@[k] == (u, q);
                            if k < old(self).used@.len() {
                                assert(old(self).used@[k] == (u, q));
                            }
                        }
                        if old(self).used@.contains((u, q)) {
                            let k = choose|k: int| 0 <= k < old(self).used@.len() && old(self).used@[k] == (u, q);
                            assert(self.used@[k] == (u, q));
                        }
                        if u == t && q == port {
                            assert(self.used@[self.used@.len() - 1] == (u, q));
                        }
                    }
                }
                return Some(port);
            }
            port = port + 1;
        }
        None
    }

    /// Bind a socket of type `t` to `bind_port`, or to a free local port
    /// when it is 0. `EADDRINUSE` when the port is taken or none is free.
    pub fn bind(&mut self, bind_port: u16, t: SocketType) -> (r: Result<u16, u32>)
        ensures
            old(self).in_use(t, bind_port) ==> r == Err::<u16, u32>(EADDRINUSE),
            !old(self).in_use(t, bind_port) && bind_port != 0 ==> r == Ok::<u16, u32>(bind_port),
            r matches Ok(p) ==> !old(self).in_use(t, p) && forall|u: SocketType, q: u16|
                final(self).in_use(u, q) == (old(self).in_use(u, q) || (u == t && q == p)),
            r matches Ok(p) ==> bind_port == 0 ==> IP_LOCAL_PORT_START <= p <= IP_LOCAL_PORT_END,
            r is Err ==> forall|u: SocketType, q: u16| final(self).in_use(u, q) == old(self).in_use(u, q),
            r matches Err(e) ==> e == EADDRINUSE,
    {
        if self.contains(t, bind_port) {
            return Err(EADDRINUSE);
        }
        if bind_port == 0 {
            match self.alloc_port(t) {
                Some(p) => Ok(p),
                None => Err(EADDRINUSE),
            }
        } else {
            self.used.push((t, bind_port));
            proof {
                assert forall|u: SocketType, q: u16| self.in_use(u, q) == (old(self).in_use(u, q) || (u == t && q == bind_port)) by {
                    if self.used@.contains((u, q)) {
                        let k = choose|k: int| 0 <= k < self.used@.len() && self.used@[k] == (u, q);
                        if k < old(self).used@.len() {
                            assert(old(self).used@[k] == (u, q));
                        }
                    }
                    if old(self).used@.contains((u, q)) {
                        let k = choose|k: int| 0 <= k < old(self).used@.len() && old(self).used@[k] == (u, q);
                        assert(self.used@[k] == (u, q));
                    }
                    if u == t && q == bind_port {
                        assert(self.used@[self.used@.len() - 1] == (u, q));
                    }
                }
            }
            Ok(bind_port)
        }
    }

    /// Give `port` of type `t` back.
    pub fn release(&mut self, t: SocketType, port: u16)
        ensures
            forall|u: SocketType, q: u16|
                final(self).in_use(u, q) == (old(self).in_use(u, q) && !(u == t && q == port)),
    {
        let mut kept: Vec<(SocketType, u16)> = Vec::new();
        let mut i: usize = 0;
        while i < self.used.len()
            invariant
                i <= self.used@.len(),
                *self == *old(self),
                forall|j: int| 0 <= j < kept@.len() ==> #[trigger] kept@[j] != (t, port)
                    && self.used@.subrange(0, i as int).contains(kept@[j]),
                forall|k: int| 0 <= k < i && #[trigger] self.used@[k] != (t, port) ==> kept@.contains(self.used@[k]),
            decreases self.used@.len() - i,
        {
            let e = self.used[i];
            let ghost prev = kept@;
            if !(e.0 == t && e.1 == port) {
                kept.push(e);
            }
            proof {
                assert forall|j: int| 0 <= j < kept@.len() implies #[trigger] kept@[j] != (t, port)
                    && self.used@.subrange(0, i + 1).contains(kept@[j]) by {
                    if j < prev.len() {
                        assert(kept@[j] == prev[j]);
                        let k = choose|k: int| 0 <= k < i && self.used@.subrange(0, i as int)[k] == prev[j];
                        assert(self.used@.subrange(0, i + 1)[k] == prev[j]);
                    } else {
                        assert(self.used@.subrange(0, i + 1)[i as int] == e);
                    }
                }
                assert forall|k: int| 0 <= k < i + 1 && #[trigger] self.used@[k] != (t, port) implies kept@.contains(self.used@[k]) by {
                    if k < i {
                        let j = choose|j: int| 0 <= j < prev.len() && prev[j] == self.used@[k];
                        assert(kept@[j] == prev[j]);
                    } else {
                        assert(kept@[kept@.len() - 1] == e);
                    }
                }
            }
            i = i + 1;
        }
        proof {
            assert(self.used@.subrange(0, self.used@.len() as int) =~= self.used@);
            assert forall|u: SocketType, q: u16| #[trigger] kept@.contains((u, q)) == (old(self).in_use(u, q) && !(u == t && q == port)) by {
                if kept@.contains((u, q)) {
                    let j = choose|j: int| 0 <= j < kept@.len() && kept@[j] == (u, q);
                    assert(kept@[j] != (t, port));
                }
                if old(self).in_use(u, q) && !(u == t && q == port) {
                    let k = choose|k: int| 0 <= k < self.used@.len() && self.used@[k] == (u, q);
                    assert(self.used@[k] != (t, port));
                }
            }
        }
        self.used = kept;
    }
}

} // verus!
