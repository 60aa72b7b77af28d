//! Event stamps: counters that the firmware advances to tell the host how
//! far it has come, and the slots that hold them.

use vstd::prelude::*;
use vstd::layout::{align_of, size_of};
use vstd::std_specs::cmp::{PartialOrdSpec, PartialOrdSpecImpl};
use core::cmp::Ordering;
use vstd::arithmetic::power2::is_pow2;
use crate::allocator::{lemma_fits, SimpleAllocation};
use crate::mmu::page_ceil;
use crate::error::Error;
use crate::gpu::KernelAllocators;
use crate::object::{GPUArray, GPUWeakPointer};
use crate::slotalloc::{Guard, SlotAllocator, SlotItem, SlotToken};

verus! {

/// The value of a stamp: a 24-bit counter above eight bits that are kept
/// for other use.
///
/// Stamps wrap: one is before another where the way forward from the one
/// to the other is the shorter way round.
#[derive(Clone, Copy, Debug, PartialEq, Eq, Structural)]
pub struct EventValue(pub u32);

/// One step of the counter in the value of a stamp.
pub const EVENT_STEP: u32 = 0x100;

/// The distance from `b` forward to `a`, counted as negative where the way
/// back is shorter: the difference of the two modulo 2^32, taken from the
/// range from -2^31 up to 2^31 - 1.
pub open spec fn stamp_delta(a: u32, b: u32) -> int {
    let d = (a - b) % 0x1_0000_0000;
    if d < 0x8000_0000 {
        d
    } else {
        d - 0x1_0000_0000
    }
}

/// The stamp `n` steps behind `a`, wrapping at 2^32.
pub open spec fn stamp_advance(a: u32, n: nat) -> u32 {
    ((a + n * 0x100) % 0x1_0000_0000) as u32
}

impl EventValue {
    /// The stamp `n` steps on.
    pub open spec fn advance(self, n: nat) -> EventValue {
        EventValue(stamp_advance(self.0, n))
    }

    /// The distance from `other` forward to `self`, as `stamp_delta` counts.
    pub open spec fn spec_delta(self, other: EventValue) -> int {
        stamp_delta(self.0, other.0)
    }

    /// Whether `self` was made before `other`.
    pub open spec fn before(self, other: EventValue) -> bool {
        self.spec_delta(other) < 0
    }

    /// Returns the value as the firmware stores it.
    pub fn stamp(&self) -> (r: u32)
        ensures
            r == self.0,
    {
        self.0
    }

    /// Returns the counter: the value without its low eight bits.
    pub fn counter(&self) -> (r: u32)
        ensures
            r == self.0 / 0x100,
            r < 0x100_0000,
    {
        let v = self.0;
        assert(v >> 8 == v / 0x100 && (v >> 8) < 0x100_0000) by (bit_vector);
        v >> 8
    }

    /// Returns the stamp one step on.
    pub fn next(&self) -> (r: EventValue)
        ensures
            r == self.advance(1),
    {
        EventValue(self.0.wrapping_add(0x100))
    }

    /// Moves the stamp one step on.
    pub fn increment(&mut self)
        ensures
            *final(self) == old(self).advance(1),
    {
        self.0 = self.0.wrapping_add(0x100);
    }

    /// Returns the distance from `other` forward to `self`.
    pub fn delta(&self, other: &EventValue) -> (r: i32)
        ensures
            r == self.spec_delta(*other),
    {
        let d: u32 = self.0.wrapping_sub(other.0);
        if d < 0x8000_0000 {
            d as i32
        } else {
            (d as i64 - 0x1_0000_0000) as i32
        }
    }
}

impl PartialOrdSpecImpl for EventValue {
    open spec fn obeys_partial_cmp_spec() -> bool {
        true
    }

    open spec fn partial_cmp_spec(&self, other: &EventValue) -> Option<Ordering> {
        if self.spec_delta(*other) < 0 {
            Some(Ordering::Less)
        } else if self.spec_delta(*other) == 0 {
            Some(Ordering::Equal)
        } else {
            Some(Ordering::Greater)
        }
    }
}

impl PartialOrd for EventValue {
    /// Orders two stamps by the sign of their distance.
    fn partial_cmp(&self, other: &EventValue) -> (r: Option<Ordering>) {
        let d = self.delta(other);
        if d < 0 {
            Some(Ordering::Less)
        } else if d == 0 {
            Some(Ordering::Equal)
        } else {
            Some(Ordering::Greater)
        }
    }
}

/// Advancing by `n + 1` steps is advancing by `n` steps and then by one:
/// `advance(n)` is what `n` calls of `next` give.
pub proof fn lemma_advance_step(a: EventValue, n: nat)
    ensures
        a.advance(0) == a,
        a.advance(n + 1) == a.advance(n).advance(1),
{
    let m = 0x1_0000_0000int;
    vstd::arithmetic::div_mod::lemma_small_mod(a.0 as nat, m as nat);
    vstd::arithmetic::div_mod::lemma_add_mod_noop(a.0 + n * 0x100, 0x100, m);
    vstd::arithmetic::div_mod::lemma_small_mod(0x100, m as nat);
    vstd::arithmetic::div_mod::lemma_mod_twice(a.0 + n * 0x100, m);
    assert((a.0 + (n + 1) * 0x100) == (a.0 + n * 0x100) + 0x100) by (nonlinear_arith);
}

/// Stamps made within 2^31 of each other compare as they were made: of two
/// stamps that `a` reaches after `i` and after `j` steps, with `i` before
/// `j` and less than 2^31 between them, the first is before the second, the
/// second is not before the first, and their distance is the steps between
/// them. This holds wherever `a` stands, so also across the wrap of the
/// counter.
pub proof fn lemma_generation_order(a: EventValue, i: nat, j: nat)
    requires
        i < j,
        (j - i) * 0x100 < 0x8000_0000,
    ensures
        a.advance(i).before(a.advance(j)),
        !a.advance(j).before(a.advance(i)),
        a.advance(j).spec_delta(a.advance(i)) == (j - i) * 0x100,
        a.advance(i).spec_delta(a.advance(j)) == -((j - i) * 0x100),
        a.advance(i) != a.advance(j),
{
    let m = 0x1_0000_0000int;
    let x = a.0 + i * 0x100;
    let y = a.0 + j * 0x100;
    let d = (j - i) * 0x100;
    assert(y - x == d) by (nonlinear_arith)
        requires
            x == a.0 + i * 0x100,
            y == a.0 + j * 0x100,
            d == (j - i) * 0x100,
    ;
    assert(d > 0) by (nonlinear_arith)
        requires
            d == (j - i) * 0x100,
            i < j,
    ;
    vstd::arithmetic::div_mod::lemma_sub_mod_noop(y, x, m);
    vstd::arithmetic::div_mod::lemma_sub_mod_noop(x, y, m);
    vstd::arithmetic::div_mod::lemma_small_mod(d as nat, m as nat);
    vstd::arithmetic::div_mod::lemma_small_mod((m - d) as nat, m as nat);
    vstd::arithmetic::div_mod::lemma_mod_add_multiples_vanish(-d, m);
    assert((x - y) % m == m - d);
}

/// The step after a stamp is always later than the stamp, by one step.
pub proof fn lemma_next_is_later(a: EventValue)
    ensures
        a.before(a.advance(1)),
        !a.advance(1).before(a),
        a.advance(1).spec_delta(a) == 0x100,
{
    lemma_advance_step(a, 0);
    lemma_generation_order(a, 0, 1);
}

/// After 2^24 steps the counter has gone all the way round and the stamp is
/// what it was.
pub proof fn lemma_full_wrap(a: EventValue)
    ensures
        a.advance(0x100_0000) == a,
{
    let m = 0x1_0000_0000int;
    vstd::arithmetic::div_mod::lemma_mod_add_multiples_vanish(a.0 as int, m);
    vstd::arithmetic::div_mod::lemma_small_mod(a.0 as nat, m as nat);
}

/// Two stamps are at no distance exactly where they are the same.
pub proof fn lemma_delta_zero(a: EventValue, b: EventValue)
    ensures
        a.spec_delta(b) == 0 <==> a == b,
{
    let m = 0x1_0000_0000int;
    if a.0 >= b.0 {
        vstd::arithmetic::div_mod::lemma_small_mod((a.0 - b.0) as nat, m as nat);
    } else {
        vstd::arithmetic::div_mod::lemma_small_mod((a.0 - b.0 + m) as nat, m as nat);
        vstd::arithmetic::div_mod::lemma_mod_add_multiples_vanish(a.0 - b.0, m);
    }
}

/// `<` on stamps is `before`, `==` is no distance, and every two stamps
/// compare.
pub proof fn lemma_order_is_before(a: EventValue, b: EventValue)
    ensures
        PartialOrdSpec::partial_cmp_spec(&a, &b) == Some(Ordering::Less) <==> a.before(b),
        PartialOrdSpec::partial_cmp_spec(&a, &b) == Some(Ordering::Greater) <==> a.spec_delta(b)
            > 0,
        PartialOrdSpec::partial_cmp_spec(&a, &b) == Some(Ordering::Equal) <==> a == b,
        PartialOrdSpec::partial_cmp_spec(&a, &b) is Some,
{
    lemma_delta_zero(a, b);
}

/// The number of event slots.
pub const NUM_EVENTS: u32 = 128;

/// What an event slot keeps: where its stamp is, and which work queue has
/// claimed it.
pub struct EventInner {
    stamp: GPUWeakPointer<u32>,
    slot: u32,
    owner: Option<u64>,
}

impl EventInner {
    /// The GPU virtual address of the stamp.
    pub closed spec fn spec_stamp_va(&self) -> u64 {
        self.stamp.spec_addr()
    }

    /// The number of the stamp among the stamps.
    pub closed spec fn spec_slot(&self) -> u32 {
        self.slot
    }

    /// The work queue that has claimed the slot, if any.
    pub closed spec fn spec_owner(&self) -> Option<u64> {
        self.owner
    }

    /// Returns where the firmware finds the stamp.
    pub fn stamp_pointer(&self) -> (r: GPUWeakPointer<u32>)
        ensures
            r.spec_addr() == self.spec_stamp_va(),
    {
        self.stamp
    }

    /// Returns the number of the stamp among the stamps.
    pub fn slot(&self) -> (r: u32)
        ensures
            r == self.spec_slot(),
    {
        self.slot
    }

    /// Returns the work queue that has claimed the slot, if any.
    pub fn owner(&self) -> (r: Option<u64>)
        ensures
            r == self.spec_owner(),
    {
        self.owner
    }

    /// Claims the slot for the work queue `owner`. The stamp stays.
    pub fn set_owner(&mut self, owner: u64)
        ensures
            final(self).spec_owner() == Some(owner),
            final(self).spec_stamp_va() == old(self).spec_stamp_va(),
            final(self).spec_slot() == old(self).spec_slot(),
    {
        self.owner = Some(owner);
    }
}

impl SlotItem for EventInner {
    type Owner = EventManagerInner;

    /// Forgets the owner. The stamp stays where it is and as it is: the
    /// firmware may still look at it.
    fn release(&mut self)
        ensures
            final(self).spec_owner() is None,
            final(self).spec_stamp_va() == old(self).spec_stamp_va(),
            final(self).spec_slot() == old(self).spec_slot(),
    {
        self.owner = None;
    }
}

/// The stamps of all event slots: those that the firmware advances, and
/// their counterparts that only the firmware reads.
pub struct EventManagerInner {
    stamps: GPUArray<u32, SimpleAllocation<u32>>,
    fw_stamps: GPUArray<u32, SimpleAllocation<u32>>,
}

impl EventManagerInner {
    /// The values of the stamps.
    pub closed spec fn spec_stamps(&self) -> Seq<u32> {
        self.stamps@
    }

    /// The GPU virtual address of the first stamp.
    pub closed spec fn spec_stamps_va(&self) -> u64 {
        self.stamps.spec_gpu_va()
    }

    /// The GPU virtual address of the first of the firmware's own stamps.
    pub closed spec fn spec_fw_stamps_va(&self) -> u64 {
        self.fw_stamps.spec_gpu_va()
    }

    /// There is a stamp for each event slot.
    pub closed spec fn wf(&self) -> bool {
        &&& self.stamps.wf()
        &&& self.fw_stamps.wf()
        &&& self.stamps@.len() == NUM_EVENTS
        &&& self.fw_stamps@.len() == NUM_EVENTS
    }
}

/// Names an event slot that its holder would like to have again.
pub type Token = SlotToken;

/// An event slot that is handed out.
pub type Event = Guard<EventInner>;

/// Hands out the event slots.
pub struct EventManager(pub SlotAllocator<EventInner>);

impl EventManager {
    /// There are `NUM_EVENTS` slots, each with a stamp of its own.
    pub open spec fn wf(&self) -> bool {
        &&& self.0.wf()
        &&& self.0.spec_len() == NUM_EVENTS
        &&& self.0.spec_data().wf()
    }

    /// The value of the stamp of slot `slot`.
    pub open spec fn spec_current(&self, slot: int) -> EventValue {
        EventValue(self.0.spec_data().spec_stamps()[slot])
    }

    /// How `new` ends: as the two allocations end, the stamps in shared
    /// memory first and then the firmware's own stamps in private memory.
    pub open spec fn creatable(alloc: KernelAllocators) -> Result<(), Error> {
        match alloc.shared.fits(
            NUM_EVENTS * size_of::<u32>(),
            alloc.shared.align_for(align_of::<u32>()),
            0,
        ) {
            Err(e) => Err(e),
            Ok(_) => alloc.private.fits(
                NUM_EVENTS * size_of::<u32>(),
                alloc.private.align_for(align_of::<u32>()),
                0,
            ),
        }
    }

    /// The bytes that `new` takes of shared memory, and as many of private
    /// memory: whole pages for the stamps.
    pub open spec fn need() -> int {
        page_ceil(NUM_EVENTS * size_of::<u32>())
    }

    /// With least alignments that are powers of two, `new` fails for want
    /// of room only.
    pub proof fn lemma_creatable(alloc: KernelAllocators)
        requires
            alloc.wf(),
            is_pow2(alloc.shared.spec_min_align() as int),
            is_pow2(alloc.private.spec_min_align() as int),
            align_of::<u32>() <= usize::MAX,
        ensures
            Self::creatable(alloc) == (if Self::need() <= alloc.shared.room() && Self::need()
                <= alloc.private.room() {
                Ok::<(), Error>(())
            } else {
                Err::<(), Error>(Error::NoMemory)
            }),
            0 <= Self::need(),
    {
        lemma_fits::<u32>(alloc.shared, NUM_EVENTS * size_of::<u32>(), 0);
        lemma_fits::<u32>(alloc.private, NUM_EVENTS * size_of::<u32>(), 0);
    }

    /// Makes the event slots, all free and unclaimed, with every stamp at 0.
    ///
    /// Fails as `creatable` says, and then gives back what it took from the
    /// allocators.
    pub fn new(alloc: &mut KernelAllocators) -> (r: Result<EventManager, Error>)
        requires
            old(alloc).wf(),
        ensures
            final(alloc).follows(*old(alloc)),
            final(alloc).gpu == old(alloc).gpu,
            r is Err ==> final(alloc).same_as(*old(alloc)),
            match r {
                Ok(m) => {
                    &&& Self::creatable(*old(alloc)) is Ok
                    &&& final(alloc).shared.room() == old(alloc).shared.room() - Self::need()
                    &&& final(alloc).private.room() == old(alloc).private.room() - Self::need()
                    &&& m.wf()
                    &&& m.0.spec_get_count() == 0
                    &&& m.0.spec_drop_count() == 0
                    &&& forall|i: int|
                        0 <= i < NUM_EVENTS ==> {
                            &&& #[trigger] m.0.is_free(i)
                            &&& m.0.spec_item(i).spec_owner() is None
                            &&& m.0.spec_item(i).spec_slot() == i
                            &&& m.0.spec_item(i).spec_stamp_va() == m.0.spec_data().spec_stamps_va()
                                + i * size_of::<u32>()
                            &&& m.spec_current(i) == EventValue(0)
                        }
                },
                Err(e) => Self::creatable(*old(alloc)) == Err::<(), Error>(e),
            },
    {
        let mark = alloc.shared.mark();
        let stamps = match alloc.shared.new_array::<u32>(NUM_EVENTS as usize) {
            Ok(a) => a,
            Err(e) => {
                return Err(e);
            },
        };
        let fw_stamps = match alloc.private.new_array::<u32>(NUM_EVENTS as usize) {
            Ok(a) => a,
            Err(e) => {
                alloc.shared.rewind(mark);
                return Err(e);
            },
        };
        let inner = EventManagerInner { stamps, fw_stamps };
        let make = |inner: &EventManagerInner, slot: u32| -> (r: EventInner)
            requires
                inner.wf(),
                slot < NUM_EVENTS,
            ensures
                r.spec_owner() is None,
                r.spec_slot() == slot,
                r.spec_stamp_va() == inner.spec_stamps_va() + slot * size_of::<u32>(),
            {
                EventInner {
                    stamp: inner.stamps.weak_item_pointer(slot as usize),
                    slot,
                    owner: None,
                }
            };
        let ghost stamps = inner;
        let m = EventManager(SlotAllocator::new(NUM_EVENTS, inner, make));
        proof {
            assert forall|i: int| 0 <= i < NUM_EVENTS implies {
                &&& #[trigger] m.0.is_free(i)
                &&& m.0.spec_item(i).spec_owner() is None
                &&& m.0.spec_item(i).spec_slot() == i
                &&& m.0.spec_item(i).spec_stamp_va() == m.0.spec_data().spec_stamps_va() + i
                    * size_of::<u32>()
                &&& m.spec_current(i) == EventValue(0)
            } by {
                assert(m.0.is_free(i));
                assert(make.ensures((&stamps, i as u32), m.0.spec_item(i)));
            }
            assert(Self::creatable(*old(alloc)) is Ok);
            assert(alloc.shared.room() == old(alloc).shared.room() - Self::need());
            assert(alloc.private.room() == old(alloc).private.room() - Self::need());
            assert(m.wf());
            assert(m.0.spec_get_count() == 0);
        }
        Ok(m)
    }

    /// Asks for an event slot: for the one that `token` names, where the
    /// token is still good, else for the free slot that came back longest
    /// ago. Fails with `Busy` where no slot is free.
    ///
    /// What happens is what `SlotAllocator::acquired` says.
    pub fn get(&mut self, token: Option<Token>) -> (r: Result<Event, Error>)
        requires
            old(self).wf(),
        ensures
            final(self).wf(),
            SlotAllocator::acquired(old(self).0, final(self).0, token, r),
            final(self).0.spec_data() == old(self).0.spec_data(),
    {
        self.0.get(token)
    }

    /// Gives an event slot back. Its owner is forgotten; its stamp stays
    /// where it is and as it is.
    ///
    /// What happens is what `SlotAllocator::released` says.
    pub fn release(&mut self, event: Event) -> (r: Result<(), Error>)
        requires
            old(self).wf(),
        ensures
            final(self).wf(),
            SlotAllocator::released(old(self).0, final(self).0, event, r),
            final(self).0.spec_data() == old(self).0.spec_data(),
            r is Ok ==> {
                let item = final(self).0.spec_item(event.spec_slot());
                &&& item.spec_owner() is None
                &&& item.spec_stamp_va() == event.spec_item().spec_stamp_va()
                &&& item.spec_slot() == event.spec_item().spec_slot()
            },
    {
        self.0.release(event)
    }

    /// Returns the value of the stamp of `event`.
    pub fn current(&self, event: &Event) -> (r: EventValue)
        requires
            self.wf(),
            event.spec_slot() < NUM_EVENTS,
        ensures
            r == self.spec_current(event.spec_slot()),
    {
        EventValue(*self.0.data().stamps.index(event.slot() as usize))
    }

    /// What the firmware does to signal the event of slot `slot`: its stamp
    /// goes one step on. No other stamp changes, and no slot.
    pub fn firmware_signal(&mut self, slot: u32)
        requires
            old(self).wf(),
            slot < NUM_EVENTS,
        ensures
            final(self).wf(),
            final(self).spec_current(slot as int) == old(self).spec_current(slot as int).advance(1),
            forall|i: int|
                0 <= i < NUM_EVENTS && i != slot ==> final(self).spec_current(i) == old(
                    self,
                ).spec_current(i),
            final(self).0.spec_get_count() == old(self).0.spec_get_count(),
            final(self).0.spec_drop_count() == old(self).0.spec_drop_count(),
            forall|j: int|
                0 <= j < NUM_EVENTS ==> {
                    &&& (#[trigger] final(self).0.is_free(j)) == old(self).0.is_free(j)
                    &&& final(self).0.spec_item(j) == old(self).0.spec_item(j)
                    &&& final(self).0.get_time(j) == old(self).0.get_time(j)
                    &&& final(self).0.drop_time(j) == old(self).0.drop_time(j)
                },
    {
        let data = self.0.data_mut();
        let cell = data.stamps.index_mut(slot as usize);
        let next = EventValue(*cell).next();
        *cell = next.stamp();
    }
}

} // verus!
