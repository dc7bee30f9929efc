//! Network devices known by id: link state, id allocation and the registry.
use crate::errno::EFAULT;
use vstd::prelude::*;

verus! {

#[derive(Clone, Copy, PartialEq, Eq, Structural, Debug)]
pub enum LinkStatus {
    Up,
    Down,
}

#[derive(Clone, Copy, PartialEq, Eq, Structural, Debug)]
pub enum LinkSpeed {
    SpeedUnknown,
    Speed10M,
    Speed100M,
    Speed1000M,
}

/// A network device driver.
pub trait Netdev {
    fn up(&mut self) -> Result<(), u32>;

    fn send(&mut self, data: &[u8]) -> Result<(), u32>;

    fn fire(&mut self) -> Result<(), u32>;

    fn link_status(&self) -> LinkStatus;

    fn link_speed(&self) -> LinkSpeed;

    fn mac(&self) -> [u8; 6];

    fn id(&self) -> u32;
}

/// The counter that hands out device ids, from 0 upwards.
pub struct NetdevIds {
    next: u32,
}

impl NetdevIds {
    pub closed spec fn spec_next(&self) -> u32 {
        self.next
    }

    pub fn new() -> (r: NetdevIds)
        ensures
            r.spec_next() == 0,
    {
        NetdevIds { next: 0 }
    }
}

/// Hand out the next device id; the counter wraps around.
pub fn alloc_id(ids: &mut NetdevIds) -> (r: u32)
    ensures
        r == old(ids).spec_next(),
        final(ids).spec_next() == if old(ids).spec_next() == u32::MAX {
            0
        } else {
            (old(ids).spec_next() + 1) as u32
        },
{
    let r = ids.next;
    ids.next = if ids.next == u32::MAX {
        0
    } else {
        ids.next + 1
    };
    r
}

/// Registered devices by id.
pub struct NetdevRegistry<D> {
    entries: Vec<(u32, D)>,
}

impl<D> NetdevRegistry<D> {
    /// The registered ids, in registration order.
    pub closed spec fn ids(&self) -> Seq<u32> {
        self.entries@.map_values(|e: (u32, D)| e.0)
    }

    /// The device registered under `id`.
    pub closed spec fn device(&self, id: u32) -> Option<D> {
        if exists|i: int| 0 <= i < self.entries@.len() && self.entries@[i].0 == id {
            let i = choose|i: int| 0 <= i < self.entries@.len() && self.entries@[i].0 == id;
            Some(self.entries@[i].1)
        } else {
            None
        }
    }

    pub closed spec fn wf(&self) -> bool {
        forall|i: int, j: int|
            0 <= i < j < self.entries@.len() ==> self.entries@[i].0 != self.entries@[j].0
    }

    pub fn new() -> (r: NetdevRegistry<D>)
        ensures
            r.wf(),
            r.ids() == Seq::<u32>::empty(),
            forall|id: u32| r.device(id) is None,
    {
        let r = NetdevRegistry { entries: Vec::new() };
        assert(r.ids() =~= Seq::<u32>::empty());
        r
    }

    fn find(&self, id: u32) -> (r: Option<usize>)
        ensures
            r matches Some(i) ==> i < self.entries@.len() && self.entries@[i as int].0 == id,
            r is None ==> forall|i: int| 0 <= i < self.entries@.len() ==> self.entries@[i].0 != id,
    {
        let mut i: usize = 0;
        while i < self.entries.len()
            invariant
                i <= self.entries@.len(),
                forall|k: int| 0 <= k < i ==> self.entries@[k].0 != id,
            decreases self.entries@.len() - i,
        {
            if self.entries[i].0 == id {
                return Some(i);
            }
            i = i + 1;
        }
        None
    }

    /// Register `dev` under `id`; `EFAULT` (and nothing changed) when the
    /// id is taken.
    pub fn register_netdev(&mut self, id: u32, dev: D) -> (r: Result<(), u32>)
        requires
            old(self).wf(),
        ensures
            final(self).wf(),
            r is Err <==> old(self).device(id) is Some,
            r matches Err(e) ==> e == EFAULT && final(self).ids() == old(self).ids(),
            r is Ok ==> final(self).ids() == old(self).ids().push(id) && final(self).device(id)
                == Some(dev),
            forall|k: u32| k != id ==> final(self).device(k) == old(self).device(k),
    {
        match self.find(id) {
            Some(i) => {
                proof {
                    assert(self.entries@[i as int].0 == id);
                }
                Err(EFAULT)
            },
            None => {
                let ghost before = self.entries@;
                self.entries.push((id, dev));
                proof {
                    assert(self.ids() =~= old(self).ids().push(id));
                    let n = before.len() as int;
                    assert(self.entries@[n].0 == id);
                    assert forall|i: int| 0 <= i < self.entries@.len() && self.entries@[i].0 == id implies i == n by {
                        if i < n {
                            assert(before[i].0 != id);
                        }
                    }
                    assert forall|k: u32| k != id implies self.device(k) == old(self).device(k) by {
                        if exists|i: int| 0 <= i < before.len() && before[i].0 == k {
                            let i = choose|i: int| 0 <= i < before.len() && before[i].0 == k;
                            assert(self.entries@[i] == before[i]);
                            let j = choose|j: int| 0 <= j < self.entries@.len() && self.entries@[j].0 == k;
                            assert(j < n);
                            assert(i == j);
                        }
                        if exists|i: int| 0 <= i < self.entries@.len() && self.entries@[i].0 == k {
                            let i = choose|i: int| 0 <= i < self.entries@.len() && self.entries@[i].0 == k;
                            assert(i < n);
                            assert(before[i].0 == k);
                        }
                    }
                }
                Ok(())
            },
        }
    }

    /// The device registered under `id`.
    pub fn get_netdev(&self, id: u32) -> (r: Option<&D>)
        requires
            self.wf(),
        ensures
            match r {
                Some(d) => self.device(id) == Some(*d),
                None => self.device(id) is None,
            },
    {
        match self.find(id) {
            Some(i) => Some(&self.entries[i].1),
            None => None,
        }
    }
}

} // verus!
