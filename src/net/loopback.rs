//! The loopback device: a bounded FIFO of packets that hands every packet sent on
//! it back to the receive path of the same host.

use super::NetError;
use vstd::prelude::*;
use vstd::slice::slice_to_vec;

verus! {

/// How many packets the device holds at once.
pub const MAX_PACKETS: usize = 16;

/// The largest packet the device accepts, in bytes.
pub const MAX_PACKET_SIZE: usize = 1514;

/// What sending `p` on a device holding `q` leaves queued, and the result.
pub open spec fn loopback_send(q: Seq<Seq<u8>>, p: Seq<u8>) -> (Seq<Seq<u8>>, Result<(), NetError>) {
    if q.len() >= MAX_PACKETS {
        (q, Err(NetError::Timeout))
    } else if p.len() > MAX_PACKET_SIZE {
        (q, Err(NetError::InvalidPacket))
    } else {
        (q.push(p), Ok(()))
    }
}

/// What consuming on a device holding `q` leaves queued.
pub open spec fn loopback_consume(q: Seq<Seq<u8>>) -> Seq<Seq<u8>> {
    if q.len() > 0 {
        q.drop_first()
    } else {
        q
    }
}

/// Packets leave in the order in which they were sent: after sending `a`, `b`
/// and `c` on an empty device, the packet at the front is `a`, then `b`, then `c`,
/// and three consumes leave the device empty.
pub proof fn lemma_fifo_order(a: Seq<u8>, b: Seq<u8>, c: Seq<u8>)
    requires
        a.len() <= MAX_PACKET_SIZE,
        b.len() <= MAX_PACKET_SIZE,
        c.len() <= MAX_PACKET_SIZE,
    ensures
        ({
            let q = loopback_send(
                loopback_send(loopback_send(Seq::empty(), a).0, b).0,
                c,
            ).0;
            &&& q.len() == 3
            &&& q[0] == a
            &&& loopback_consume(q)[0] == b
            &&& loopback_consume(loopback_consume(q))[0] == c
            &&& loopback_consume(loopback_consume(loopback_consume(q))).len() == 0
        }),
{
}

/// A device holding `MAX_PACKETS` packets refuses another with `Timeout` and is
/// left unchanged; after one consume it takes exactly one more.
pub proof fn lemma_capacity(q: Seq<Seq<u8>>, p: Seq<u8>, p2: Seq<u8>)
    requires
        q.len() == MAX_PACKETS,
        p.len() <= MAX_PACKET_SIZE,
        p2.len() <= MAX_PACKET_SIZE,
    ensures
        loopback_send(q, p) == (q, Err::<(), NetError>(NetError::Timeout)),
        loopback_send(loopback_consume(q), p).1 is Ok,
        loopback_send(loopback_send(loopback_consume(q), p).0, p2).1 == Err::<(), NetError>(
            NetError::Timeout,
        ),
{
}

/// A ring of packet slots read at `head` and written at `tail`.
pub struct LoopbackInterface {
    packets: Vec<Vec<u8>>,
    head: usize,
    tail: usize,
    count: usize,
}

impl View for LoopbackInterface {
    /// The queued packets, oldest first.
    type V = Seq<Seq<u8>>;

    closed spec fn view(&self) -> Seq<Seq<u8>> {
        Seq::new(self.count as nat, |i: int| self.packets@[(self.head + i) % (MAX_PACKETS as int)]@)
    }
}

impl LoopbackInterface {
    pub closed spec fn wf(&self) -> bool {
        &&& self.packets@.len() == MAX_PACKETS
        &&& self.head < MAX_PACKETS
        &&& self.count <= MAX_PACKETS
        &&& self.tail == (self.head + self.count) % (MAX_PACKETS as int)
        &&& forall|i: int|
            0 <= i < self.count ==> #[trigger] self.packets@[(self.head + i) % (
            MAX_PACKETS as int)]@.len() <= MAX_PACKET_SIZE
    }

    /// An empty device.
    pub fn new() -> (r: Self)
        ensures
            r.wf(),
            r@ == Seq::<Seq<u8>>::empty(),
    {
        let mut packets: Vec<Vec<u8>> = Vec::new();
        let mut i: usize = 0;
        while i < MAX_PACKETS
            invariant
                i <= MAX_PACKETS,
                packets@.len() == i,
            decreases MAX_PACKETS - i,
        {
            packets.push(Vec::new());
            i = i + 1;
        }
        let r = LoopbackInterface { packets, head: 0, tail: 0, count: 0 };
        assert(r@ =~= Seq::<Seq<u8>>::empty());
        r
    }

    /// Queues a copy of `packet` behind the packets already queued.
    pub fn send(&mut self, packet: &[u8]) -> (r: Result<(), NetError>)
        requires
            old(self).wf(),
        ensures
            final(self).wf(),
            (final(self)@, r) == loopback_send(old(self)@, packet@),
    {
        if self.count >= MAX_PACKETS {
            return Err(NetError::Timeout);
        }
        if packet.len() > MAX_PACKET_SIZE {
            return Err(NetError::InvalidPacket);
        }
        let ghost before = self@;
        let buf = slice_to_vec(packet);
        let t = self.tail;
        self.packets.set(t, buf);
        self.tail = (self.tail + 1) % MAX_PACKETS;
        self.count = self.count + 1;
        assert forall|i: int| 0 <= i < self.count implies #[trigger] self.packets@[(self.head + i) % (
            MAX_PACKETS as int)]@.len() <= MAX_PACKET_SIZE by {
            if i < self.count - 1 {
                assert((self.head + i) % (MAX_PACKETS as int) != t as int);
            }
        }
        assert(self@ =~= before.push(packet@)) by {
            assert forall|i: int| 0 <= i < before.len() implies self@[i] == before[i] by {
                assert((self.head + i) % (MAX_PACKETS as int) != t as int);
            }
        }
        Ok(())
    }

    /// Whether no packet is queued.
    pub fn is_empty(&self) -> (r: bool)
        requires
            self.wf(),
        ensures
            r == (self@.len() == 0),
    {
        self.count == 0
    }

    /// The oldest queued packet, left in place; `None` when the queue is empty.
    pub fn recv(&self) -> (r: Option<&[u8]>)
        requires
            self.wf(),
        ensures
            self@.len() == 0 <==> r is None,
            r matches Some(p) ==> p@ == self@[0],
    {
        if self.count == 0 {
            return None;
        }
        Some(self.packets[self.head].as_slice())
    }

    /// Removes the oldest queued packet; does nothing when the queue is empty.
    #[verifier::rlimit(40)]
    pub fn consume(&mut self)
        requires
            old(self).wf(),
        ensures
            final(self).wf(),
            final(self)@ == loopback_consume(old(self)@),
    {
        if self.count > 0 {
            let ghost before = self@;
            let h = self.head;
            self.packets.set(h, Vec::new());
            self.head = (self.head + 1) % MAX_PACKETS;
            self.count = self.count - 1;
            assert forall|i: int| 0 <= i < self.count implies #[trigger] self.packets@[(self.head
                + i) % (MAX_PACKETS as int)]@.len() <= MAX_PACKET_SIZE by {
                assert((self.head + i) % (MAX_PACKETS as int) == (h + i + 1) % (MAX_PACKETS as int));
                assert(old(self).packets@[(h + (i + 1)) % (MAX_PACKETS as int)]@.len()
                    <= MAX_PACKET_SIZE);
            }
            assert(self@ =~= before.drop_first()) by {
                assert forall|i: int| 0 <= i < self@.len() implies self@[i] == before[i + 1] by {
                    assert((self.head + i) % (MAX_PACKETS as int) == (h + (i + 1)) % (MAX_PACKETS as int));
                }
            }
        }
    }
}

} // verus!
