//! The protocol of a ring: a fixed number of slots, a read index that the
//! consumer moves and a write index that the producer moves.

use vstd::prelude::*;

verus! {

/// The index behind `p` in a ring of `count` slots.
pub open spec fn ring_next(p: int, count: int) -> int {
    (p + 1) % count
}

/// A ring as both sides see it.
pub struct Ring<U> {
    /// What the slots hold.
    pub slots: Seq<U>,
    /// Index of the slot that the consumer reads next.
    pub rptr: int,
    /// Index of the slot that the producer writes next.
    pub wptr: int,
}

impl<U> Ring<U> {
    /// The number of slots.
    pub open spec fn count(self) -> int {
        self.slots.len() as int
    }

    /// There is a slot, and both indices name one.
    pub open spec fn wf(self) -> bool {
        &&& 0 <= self.rptr < self.count()
        &&& 0 <= self.wptr < self.count()
    }

    /// The number of messages written and not yet read.
    pub open spec fn len(self) -> int {
        if self.wptr >= self.rptr {
            self.wptr - self.rptr
        } else {
            self.wptr - self.rptr + self.count()
        }
    }

    /// Nothing is left to read.
    pub open spec fn is_empty(self) -> bool {
        self.rptr == self.wptr
    }

    /// Nothing more can be written: one more message and the ring would look
    /// empty.
    pub open spec fn is_full(self) -> bool {
        ring_next(self.wptr, self.count()) == self.rptr
    }

    /// The index of the slot that holds the message `i` places behind the
    /// oldest.
    pub open spec fn slot_of(self, i: int) -> int {
        (self.rptr + i) % self.count()
    }

    /// The messages written and not yet read, oldest first.
    pub open spec fn pending(self) -> Seq<U> {
        Seq::new(self.len() as nat, |i: int| self.slots[self.slot_of(i)])
    }

    /// The ring after the producer has written `m`.
    pub open spec fn send(self, m: U) -> Ring<U> {
        Ring {
            slots: self.slots.update(self.wptr, m),
            rptr: self.rptr,
            wptr: ring_next(self.wptr, self.count()),
        }
    }

    /// The message that the consumer reads next.
    pub open spec fn front(self) -> U {
        self.slots[self.rptr]
    }

    /// The ring after the consumer has read one message.
    pub open spec fn recv(self) -> Ring<U> {
        Ring { slots: self.slots, rptr: ring_next(self.rptr, self.count()), wptr: self.wptr }
    }

    /// How many slots the index `p` lies behind the read index, going round
    /// at the end.
    pub open spec fn distance(self, p: int) -> int {
        if p >= self.rptr {
            p - self.rptr
        } else {
            p - self.rptr + self.count()
        }
    }

    /// Whether the consumer can have come to the index `p`: `p` names a
    /// slot, and no more slots lie between the read index and `p` than
    /// messages are pending.
    pub open spec fn reaches(self, p: int) -> bool {
        &&& 0 <= p < self.count()
        &&& self.distance(p) <= self.len()
    }

    /// The ring after the consumer has come to the index `p`.
    pub open spec fn advance(self, p: int) -> Ring<U> {
        Ring { slots: self.slots, rptr: p, wptr: self.wptr }
    }

    /// The ring after the producer has written `msgs`, each while there was
    /// room; a message that finds the ring full is not written, and none
    /// behind it.
    pub open spec fn send_all(self, msgs: Seq<U>) -> Ring<U>
        decreases msgs.len(),
    {
        if msgs.len() == 0 || self.is_full() {
            self
        } else {
            self.send(msgs[0]).send_all(msgs.drop_first())
        }
    }

    /// What the consumer reads in `n` reads, each while there was something
    /// to read.
    pub open spec fn recv_n(self, n: nat) -> Seq<U>
        decreases n,
    {
        if n == 0 || self.is_empty() {
            Seq::empty()
        } else {
            seq![self.front()] + self.recv().recv_n((n - 1) as nat)
        }
    }

    /// The ring after the consumer has read `n` times, each while there was
    /// something to read.
    pub open spec fn after_recv_n(self, n: nat) -> Ring<U>
        decreases n,
    {
        if n == 0 || self.is_empty() {
            self
        } else {
            self.recv().after_recv_n((n - 1) as nat)
        }
    }
}

/// The index behind `p` is `p + 1`, or 0 behind the last slot.
pub proof fn lemma_ring_next(p: int, count: int)
    requires
        0 <= p < count,
    ensures
        ring_next(p, count) == (if p + 1 == count {
            0
        } else {
            p + 1
        }),
        0 <= ring_next(p, count) < count,
{
    if p + 1 == count {
        vstd::arithmetic::div_mod::lemma_mod_self_0(count);
    } else {
        vstd::arithmetic::div_mod::lemma_small_mod((p + 1) as nat, count as nat);
    }
}

/// The slot of the `i`-th pending message is `i` slots behind the read
/// index, going round at the end.
pub proof fn lemma_slot_of<U>(ring: Ring<U>, i: int)
    requires
        ring.wf(),
        0 <= i < ring.count(),
    ensures
        ring.slot_of(i) == (if ring.rptr + i < ring.count() {
            ring.rptr + i
        } else {
            ring.rptr + i - ring.count()
        }),
        0 <= ring.slot_of(i) < ring.count(),
{
    let n = ring.count();
    let x = ring.rptr + i;
    if x < n {
        vstd::arithmetic::div_mod::lemma_small_mod(x as nat, n as nat);
    } else {
        vstd::arithmetic::div_mod::lemma_small_mod((x - n) as nat, n as nat);
        vstd::arithmetic::div_mod::lemma_mod_sub_multiples_vanish(x, n);
    }
}

/// A ring holds between no message and one less than it has slots; it is
/// empty with none and full with one less than it has slots.
pub proof fn lemma_ring_len<U>(ring: Ring<U>)
    requires
        ring.wf(),
    ensures
        0 <= ring.len() <= ring.count() - 1,
        ring.pending().len() == ring.len(),
        ring.is_empty() <==> ring.len() == 0,
        ring.is_full() <==> ring.len() == ring.count() - 1,
{
    lemma_ring_next(ring.wptr, ring.count());
}

/// Writing into a ring that is not full puts the message behind all that
/// are pending, and changes none of them.
pub proof fn lemma_ring_send<U>(ring: Ring<U>, m: U)
    requires
        ring.wf(),
        !ring.is_full(),
    ensures
        ring.send(m).wf(),
        ring.send(m).pending() == ring.pending().push(m),
        ring.send(m).len() == ring.len() + 1,
        !ring.send(m).is_empty(),
{
    let after = ring.send(m);
    let n = ring.count();
    lemma_ring_next(ring.wptr, n);
    lemma_ring_len(ring);
    assert(after.len() == ring.len() + 1);
    assert forall|i: int| 0 <= i < after.len() implies after.pending()[i] == ring.pending().push(
        m,
    )[i] by {
        lemma_slot_of(ring, i);
        lemma_slot_of(after, i);
    }
    assert(after.pending() =~= ring.pending().push(m));
}

/// Reading from a ring that is not empty gives the oldest pending message
/// and leaves the others pending, in their order.
pub proof fn lemma_ring_recv<U>(ring: Ring<U>)
    requires
        ring.wf(),
        !ring.is_empty(),
    ensures
        ring.recv().wf(),
        ring.front() == ring.pending()[0],
        ring.recv().pending() == ring.pending().drop_first(),
        ring.recv().len() == ring.len() - 1,
        !ring.recv().is_full(),
{
    let after = ring.recv();
    let n = ring.count();
    lemma_ring_next(ring.rptr, n);
    lemma_ring_next(ring.wptr, n);
    lemma_ring_len(ring);
    lemma_slot_of(ring, 0);
    assert(after.len() == ring.len() - 1);
    assert forall|i: int| 0 <= i < after.len() implies after.pending()[i]
        == ring.pending().drop_first()[i] by {
        lemma_slot_of(after, i);
        lemma_slot_of(ring, i + 1);
    }
    assert(after.pending() =~= ring.pending().drop_first());
}

/// Writing messages for which the ring has room puts them all behind those
/// pending, in the order written.
pub proof fn lemma_send_all<U>(ring: Ring<U>, msgs: Seq<U>)
    requires
        ring.wf(),
        ring.len() + msgs.len() <= ring.count() - 1,
    ensures
        ring.send_all(msgs).wf(),
        ring.send_all(msgs).pending() == ring.pending() + msgs,
        ring.send_all(msgs).rptr == ring.rptr,
    decreases msgs.len(),
{
    lemma_ring_len(ring);
    if msgs.len() == 0 {
        assert(ring.pending() + msgs =~= ring.pending());
    } else {
        lemma_ring_send(ring, msgs[0]);
        lemma_send_all(ring.send(msgs[0]), msgs.drop_first());
        assert(ring.pending().push(msgs[0]) + msgs.drop_first() =~= ring.pending() + msgs);
    }
}

/// Reading as often as messages are pending gives exactly the pending
/// messages, oldest first, and leaves the ring empty: a further read finds
/// nothing.
pub proof fn lemma_recv_all<U>(ring: Ring<U>)
    requires
        ring.wf(),
    ensures
        ring.recv_n(ring.len() as nat) == ring.pending(),
        ring.after_recv_n(ring.len() as nat).wf(),
        ring.after_recv_n(ring.len() as nat).is_empty(),
        ring.after_recv_n(ring.len() as nat).wptr == ring.wptr,
    decreases ring.len(),
{
    lemma_ring_len(ring);
    if ring.is_empty() {
        assert(ring.pending() =~= Seq::<U>::empty());
    } else {
        lemma_ring_recv(ring);
        lemma_recv_all(ring.recv());
        assert(seq![ring.front()] + ring.pending().drop_first() =~= ring.pending());
    }
}

/// First in, first out: what is written into an empty ring, within its
/// room, is read in the order written, each message once, and then the ring
/// is empty again.
pub proof fn lemma_fifo<U>(ring: Ring<U>, msgs: Seq<U>)
    requires
        ring.wf(),
        ring.is_empty(),
        msgs.len() <= ring.count() - 1,
    ensures
        ring.send_all(msgs).recv_n(msgs.len()) == msgs,
        ring.send_all(msgs).after_recv_n(msgs.len()).is_empty(),
        ring.send_all(msgs).after_recv_n(msgs.len()).recv_n(1) == Seq::<U>::empty(),
{
    lemma_ring_len(ring);
    lemma_send_all(ring, msgs);
    let sent = ring.send_all(msgs);
    assert(ring.pending() + msgs =~= msgs);
    lemma_ring_len(sent);
    lemma_recv_all(sent);
}

/// A ring with `N` slots takes `N - 1` messages and then is full: the write
/// index never reaches the read index from behind, so a full ring never
/// looks empty.
pub proof fn lemma_ring_boundary<U>(ring: Ring<U>, m: U)
    requires
        ring.wf(),
    ensures
        ring.len() < ring.count() - 1 ==> !ring.is_full() && ring.send(m).len() == ring.len() + 1,
        ring.len() == ring.count() - 1 ==> ring.is_full(),
        !ring.is_full() ==> ring.send(m).wptr != ring.send(m).rptr,
{
    lemma_ring_len(ring);
    if !ring.is_full() {
        lemma_ring_send(ring, m);
    }
}

/// A consumer that has come to an index it can reach has read as many
/// messages as the index lies behind the read index, oldest first; the
/// others are pending as before, in their order. Where it has read any, the
/// ring is not full.
pub proof fn lemma_ring_advance<U>(ring: Ring<U>, p: int)
    requires
        ring.wf(),
        ring.reaches(p),
    ensures
        ring.advance(p).wf(),
        0 <= ring.distance(p) <= ring.len(),
        ring.advance(p).len() == ring.len() - ring.distance(p),
        ring.advance(p).pending() == ring.pending().skip(ring.distance(p)),
        ring.advance(p) == ring.after_recv_n(ring.distance(p) as nat),
        ring.recv_n(ring.distance(p) as nat) == ring.pending().take(ring.distance(p)),
        ring.distance(p) > 0 ==> !ring.advance(p).is_full(),
        ring.distance(p) == 0 ==> ring.advance(p) == ring,
    decreases ring.distance(p),
{
    let after = ring.advance(p);
    let d = ring.distance(p);
    let n = ring.count();
    lemma_ring_len(ring);
    lemma_ring_len(after);
    assert forall|i: int| 0 <= i < after.len() implies after.pending()[i] == ring.pending().skip(
        d,
    )[i] by {
        lemma_slot_of(after, i);
        lemma_slot_of(ring, d + i);
    }
    assert(after.pending() =~= ring.pending().skip(d));
    if d == 0 {
        assert(ring.pending().take(0) =~= Seq::<U>::empty());
    } else {
        lemma_ring_recv(ring);
        lemma_ring_next(ring.rptr, n);
        let one = ring.recv();
        assert(one.reaches(p) && one.distance(p) == d - 1);
        lemma_ring_advance(one, p);
        assert(one.advance(p) == after);
        assert(seq![ring.front()] + ring.pending().drop_first().take(d - 1)
            =~= ring.pending().take(d));
    }
}

} // verus!
