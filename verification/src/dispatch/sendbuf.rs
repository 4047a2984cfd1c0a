//! Buffers for the packets that wait to be written to the device.
use std::collections::VecDeque;
use vstd::prelude::*;

verus! {

/// How many buffers a new [`SendingBuffer`] has.
pub const NUM_BUFFS: usize = 4;

/// What a [`SendingBuffer`] holds.
pub struct Buffers {
    /// Packets in the order in which they are to be written.
    pub packets: Seq<Seq<u8>>,
    /// Buffers without a packet, which may still hold old bytes. The last is
    /// the next one in use.
    pub spare: Seq<Seq<u8>>,
}

impl Buffers {
    /// No packet at all: `n` empty buffers.
    pub open spec fn fresh(n: nat) -> Buffers {
        Buffers { packets: Seq::empty(), spare: Seq::new(n, |i: int| Seq::empty()) }
    }

    /// Handing in `b`: a packet goes to the end of the line, an empty buffer
    /// to the spare ones.
    pub open spec fn queued(self, b: Seq<u8>) -> Buffers {
        if b.len() == 0 {
            Buffers { packets: self.packets, spare: self.spare.push(b) }
        } else {
            Buffers { packets: self.packets.push(b), spare: self.spare }
        }
    }

    /// Giving up the packet at the head of the line.
    pub open spec fn without_first(self) -> Buffers {
        Buffers { packets: self.packets.drop_first(), spare: self.spare }
    }

    /// Giving up the last spare buffer.
    pub open spec fn without_last_spare(self) -> Buffers {
        Buffers { packets: self.packets, spare: self.spare.drop_last() }
    }

    /// The packet at the head of the line is done with, its buffer is spare.
    pub open spec fn recycled(self) -> Buffers {
        Buffers { packets: self.packets.drop_first(), spare: self.spare.push(self.packets[0]) }
    }

    /// Handing in one buffer after the other.
    pub open spec fn queued_all(self, bufs: Seq<Seq<u8>>) -> Buffers
        decreases bufs.len(),
    {
        if bufs.len() == 0 {
            self
        } else {
            self.queued_all(bufs.drop_last()).queued(bufs.last())
        }
    }

    /// The number of buffers, with or without a packet.
    pub open spec fn count(self) -> nat {
        self.packets.len() + self.spare.len()
    }

    /// No packet in the line is empty.
    pub open spec fn valid(self) -> bool {
        forall|i: int| 0 <= i < self.packets.len() ==> (#[trigger] self.packets[i]).len() > 0
    }
}

/// Packets stand in line in the order in which they were handed in, behind
/// those that were there before. Empty buffers do not get in line.
pub proof fn lemma_line_keeps_order(b: Buffers, bufs: Seq<Seq<u8>>)
    ensures
        b.queued_all(bufs).packets == b.packets + bufs.filter(|p: Seq<u8>| p.len() > 0),
    decreases bufs.len(),
{
    let full = |p: Seq<u8>| p.len() > 0;
    reveal(Seq::filter);
    if bufs.len() == 0 {
        assert(b.packets + bufs.filter(full) =~= b.packets);
    } else {
        lemma_line_keeps_order(b, bufs.drop_last());
        assert(b.queued_all(bufs).packets =~= b.packets + bufs.filter(full));
    }
}

/// The packet at the head of the line leaves it whether or not another one is
/// handed in before.
pub proof fn lemma_line_moves_at_its_head(b: Buffers, p: Seq<u8>)
    requires
        b.packets.len() > 0,
    ensures
        b.queued(p).packets[0] == b.packets[0],
        b.queued(p).without_first() == b.without_first().queued(p),
        b.queued(p).recycled().packets == b.recycled().queued(p).packets,
{
    assert(b.queued(p).packets.drop_first() =~= b.without_first().queued(p).packets);
    assert(b.queued(p).recycled().packets =~= b.recycled().queued(p).packets);
}

/// No buffer is lost: one that is taken and handed in again, filled or not, or
/// done with and kept, leaves their number as it is.
pub proof fn lemma_buffers_are_kept(b: Buffers, p: Seq<u8>)
    ensures
        b.queued(p).count() == b.count() + 1,
        b.spare.len() > 0 ==> b.without_last_spare().queued(p).count() == b.count(),
        b.packets.len() > 0 ==> b.recycled().count() == b.count(),
        b.packets.len() > 0 ==> b.without_first().queued(p).count() == b.count(),
{
}

/// What leaves the line is what stood at its head, and what is left is the rest
/// of it, in order. A buffer that is kept is the one that the packet was in.
pub proof fn lemma_the_rest_stays_in_line(b: Buffers)
    requires
        b.packets.len() > 0,
    ensures
        seq![b.packets[0]] + b.without_first().packets == b.packets,
        seq![b.packets[0]] + b.recycled().packets == b.packets,
        b.without_first().spare == b.spare,
        b.recycled().spare.len() == b.spare.len() + 1,
        b.recycled().spare.last() == b.packets[0],
        b.recycled().without_last_spare() == b.without_first(),
{
    assert(seq![b.packets[0]] + b.without_first().packets =~= b.packets);
    assert(b.recycled().without_last_spare().spare =~= b.without_first().spare);
}

/// Handing in a buffer with a packet, or an empty one, undoes taking it: a spare
/// buffer that comes back empty is the next one again, and one that comes back
/// with a packet is the last in line.
pub proof fn lemma_buffers_come_back(b: Buffers, p: Seq<u8>)
    ensures
        p.len() == 0 ==> b.queued(p).packets == b.packets && b.queued(p).without_last_spare() == b,
        p.len() > 0 ==> b.queued(p).spare == b.spare && b.queued(p).packets.last() == p
            && b.queued(p).packets.drop_last() == b.packets,
        b.without_last_spare().packets == b.packets,
        b.valid() ==> b.queued(p).valid(),
{
    assert(b.queued(p).spare.drop_last() =~= b.spare || p.len() > 0);
    assert(b.queued(p).packets.drop_last() =~= b.packets || p.len() == 0);
}

/// A line that was never used is empty, and so is each of its buffers.
pub proof fn lemma_fresh_buffers_are_empty(n: nat)
    ensures
        Buffers::fresh(n).packets.len() == 0,
        Buffers::fresh(n).spare.len() == n,
        forall|i: int| 0 <= i < n ==> (#[trigger] Buffers::fresh(n).spare[i]).len() == 0,
        Buffers::fresh(n).valid(),
{
}

/// Buffer packets to be written to device
pub struct SendingBuffer {
    /// with data
    packets: VecDeque<Vec<u8>>,
    bufs: Vec<Vec<u8>>,
}

impl View for SendingBuffer {
    type V = Buffers;

    closed spec fn view(&self) -> Buffers {
        Buffers {
            packets: self.packets@.map_values(|v: Vec<u8>| v@),
            spare: self.bufs@.map_values(|v: Vec<u8>| v@),
        }
    }
}

impl SendingBuffer {
    /// Starts with no packet and `NUM_BUFFS` empty buffers.
    pub fn new() -> (r: Self)
        ensures
            r@ == Buffers::fresh(NUM_BUFFS as nat),
            r@.valid(),
    {
        let mut bufs: Vec<Vec<u8>> = Vec::new();
        while bufs.len() < NUM_BUFFS
            invariant
                bufs.len() <= NUM_BUFFS,
                forall|i: int| 0 <= i < bufs.len() ==> (#[trigger] bufs@[i])@.len() == 0,
            decreases NUM_BUFFS - bufs.len(),
        {
            bufs.push(Vec::new());
        }
        let r = SendingBuffer { packets: VecDeque::new(), bufs };
        assert(r@.packets =~= Buffers::fresh(NUM_BUFFS as nat).packets);
        assert(r@.spare =~~= Buffers::fresh(NUM_BUFFS as nat).spare);
        r
    }

    /// Takes the packet at the head of the line, with its buffer.
    pub fn pop_packet(&mut self) -> (r: Option<Vec<u8>>)
        requires
            old(self)@.valid(),
        ensures
            final(self)@.valid(),
            old(self)@.packets.len() == 0 ==> r is None && final(self)@ == old(self)@,
            old(self)@.packets.len() > 0 ==> r is Some && r->Some_0@ == old(self)@.packets[0]
                && final(self)@ == old(self)@.without_first(),
    {
        let r = self.packets.pop_front();
        proof {
            if old(self)@.packets.len() > 0 {
                assert(self@.packets =~= old(self)@.packets.drop_first());
            }
        }
        r
    }

    /// The packet at the head of the line.
    pub fn first(&self) -> (r: Option<&[u8]>)
        ensures
            self@.packets.len() == 0 ==> r is None,
            self@.packets.len() > 0 ==> r is Some && r->Some_0@ == self@.packets[0],
    {
        if self.packets.len() == 0 {
            None
        } else {
            Some(self.packets[0].as_slice())
        }
    }

    /// Takes the packet at the head of the line out of it and keeps its buffer.
    pub fn pop_front(&mut self)
        requires
            old(self)@.valid(),
            old(self)@.packets.len() > 0,
        ensures
            final(self)@.valid(),
            final(self)@ == old(self)@.recycled(),
    {
        let f = self.packets.pop_front().unwrap();
        self.bufs.push(f);
        assert(self@.packets =~= old(self)@.packets.drop_first());
        assert(self@.spare =~= old(self)@.spare.push(old(self)@.packets[0]));
    }

    /// Takes a spare buffer, emptied.
    pub fn get_buf(&mut self) -> (r: Option<Vec<u8>>)
        requires
            old(self)@.valid(),
        ensures
            final(self)@.valid(),
            old(self)@.spare.len() == 0 ==> r is None && final(self)@ == old(self)@,
            old(self)@.spare.len() > 0 ==> r is Some && r->Some_0@.len() == 0
                && final(self)@ == old(self)@.without_last_spare(),
    {
        if self.bufs.is_empty() {
            return None;
        }
        let last: usize = self.bufs.len() - 1;
        let mut b = self.bufs.remove(last);
        b.clear();
        assert(self@.packets == old(self)@.packets);
        assert(self@.spare =~= old(self)@.spare.drop_last());
        Some(b)
    }

    /// Lends the next spare buffer, emptied, to be filled in place.
    pub fn get_mut(&mut self) -> (r: Option<&mut Vec<u8>>)
        ensures
            old(self)@.spare.len() == 0 ==> r is None && final(self)@ == old(self)@,
            old(self)@.spare.len() > 0 ==> r is Some && r->Some_0@.len() == 0
                && final(self)@.packets == old(self)@.packets && final(self)@.spare
                == old(self)@.spare.update(old(self)@.spare.len() - 1, final(r->Some_0)@),
    {
        if self.bufs.is_empty() {
            return None;
        }
        let last: usize = self.bufs.len() - 1;
        let b = &mut self.bufs[last];
        b.clear();
        Some(b)
    }

    /// Hands in a buffer: in line if it has a packet, with the spare ones if not.
    pub fn queue_buf(&mut self, b: Vec<u8>)
        requires
            old(self)@.valid(),
        ensures
            final(self)@.valid(),
            final(self)@ == old(self)@.queued(b@),
    {
        if b.is_empty() {
            self.bufs.push(b);
        } else {
            self.packets.push_back(b);
        }
        assert(self@.packets =~= old(self)@.queued(b@).packets);
        assert(self@.spare =~= old(self)@.queued(b@).spare);
    }

    /// Puts the buffer that [`get_mut`](Self::get_mut) lent in line, if
    /// something was written to it.
    pub fn queue_written(&mut self)
        requires
            old(self)@.valid(),
            old(self)@.spare.len() > 0,
        ensures
            final(self)@.valid(),
            final(self)@ == old(self)@.without_last_spare().queued(old(self)@.spare.last()),
    {
        let last: usize = self.bufs.len() - 1;
        let b = self.bufs.remove(last);
        if b.is_empty() {
            self.bufs.push(b);
        } else {
            self.packets.push_back(b);
        }
        let ghost expected = old(self)@.without_last_spare().queued(old(self)@.spare.last());
        assert(self@.packets =~= expected.packets);
        assert(self@.spare =~= expected.spare);
    }
}

} // verus!
