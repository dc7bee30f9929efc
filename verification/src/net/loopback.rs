//! The loopback device: what is sent is received back.
use crate::net::device::{NetDev, NetDevError};
use vstd::prelude::*;

verus! {

/// The loopback device and its queue of sent packets.
pub struct Loopback {
    queue: Vec<Vec<u8>>,
}

impl Loopback {
    /// The packets waiting, oldest first.
    pub closed spec fn queue(&self) -> Seq<Seq<u8>> {
        self.queue@.map_values(|p: Vec<u8>| p@)
    }

    /// A loopback device with nothing queued.
    pub fn new() -> (r: Loopback)
        ensures
            r.queue() == Seq::<Seq<u8>>::empty(),
    {
        let r = Loopback { queue: Vec::new() };
        assert(r.queue() =~= Seq::<Seq<u8>>::empty());
        r
    }

    /// Whether a packet is waiting.
    pub fn has_packet(&self) -> (r: bool)
        ensures
            r == (self.queue().len() > 0),
    {
        self.queue.len() != 0
    }

    /// Queue a copy of `data`.
    pub fn transmit(&mut self, data: &[u8]) -> (r: Result<(), NetDevError>)
        ensures
            r is Ok,
            transmitted(*old(self), *final(self), data@),
    {
        let mut p: Vec<u8> = Vec::new();
        let mut i: usize = 0;
        while i < data.len()
            invariant
                i <= data@.len(),
                p@ == data@.subrange(0, i as int),
            decreases data@.len() - i,
        {
            p.push(data[i]);
            i = i + 1;
            assert(p@ =~= data@.subrange(0, i as int));
        }
        assert(p@ =~= data@);
        self.queue.push(p);
        assert(self.queue() =~= old(self).queue().push(data@));
        Ok(())
    }

    /// Take the packet queued last; `Unknown` when none is.
    pub fn receive(&mut self) -> (r: Result<Vec<u8>, NetDevError>)
        ensures
            old(self).queue().len() == 0 ==> r == Err::<Vec<u8>, NetDevError>(NetDevError::Unknown)
                && final(self).queue() == old(self).queue(),
            old(self).queue().len() > 0 ==> (r matches Ok(p) && received(*old(self), *final(self), p@)),
    {
        match self.queue.pop() {
            Some(p) => {
                assert(self.queue() =~= old(self).queue().drop_last());
                Ok(p)
            },
            None => Err(NetDevError::Unknown),
        }
    }
}

/// The device after `data` was queued.
pub open spec fn transmitted(before: Loopback, after: Loopback, data: Seq<u8>) -> bool {
    after.queue() == before.queue().push(data)
}

/// The device after the packet `got` was taken from a non-empty queue.
pub open spec fn received(before: Loopback, after: Loopback, got: Seq<u8>) -> bool {
    got == before.queue().last() && after.queue() == before.queue().drop_last()
}

/// What is sent is received back: the packet received right after `data`
/// was transmitted is `data`, and the queue is left as before the send.
pub proof fn law_sent_is_received(l0: Loopback, l1: Loopback, l2: Loopback, data: Seq<u8>, got: Seq<u8>)
    requires
        transmitted(l0, l1, data),
        received(l1, l2, got),
    ensures
        got == data,
        l2.queue() == l0.queue(),
{
    assert(l1.queue().drop_last() =~= l0.queue());
}

impl NetDev for Loopback {
    fn mac_addr(&self) -> (r: [u8; 6])
        ensures
            r@ == seq![0u8, 0u8, 0u8, 0u8, 0u8, 0u8],
    {
        let r: [u8; 6] = [0, 0, 0, 0, 0, 0];
        assert(r@ =~= seq![0u8, 0u8, 0u8, 0u8, 0u8, 0u8]);
        r
    }

    fn can_receive(&self) -> (r: bool)
        ensures
            r == (self.queue().len() > 0),
    {
        self.has_packet()
    }

    fn can_send(&self) -> bool {
        true
    }

    fn recv(&mut self) -> (r: Result<Vec<u8>, NetDevError>)
        ensures
            old(self).queue().len() == 0 ==> r == Err::<Vec<u8>, NetDevError>(NetDevError::Unknown)
                && final(self).queue() == old(self).queue(),
            old(self).queue().len() > 0 ==> (r matches Ok(p) && received(*old(self), *final(self), p@)),
    {
        self.receive()
    }

    fn send(&mut self, data: &[u8]) -> (r: Result<(), NetDevError>)
        ensures
            r is Ok,
            transmitted(*old(self), *final(self), data@),
    {
        self.transmit(data)
    }
}

} // verus!
