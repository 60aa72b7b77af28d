//! Ring channels between host and firmware: the host's end of each, and
//! what the firmware does at the other end.

use vstd::prelude::*;
use vstd::layout::{align_of, size_of};
use vstd::arithmetic::power2::is_pow2;
use crate::allocator::lemma_fits;
use crate::error::Error;
use crate::fw::channels::{
    ChannelState, DeviceControlMsg, FWLogChannelState, PipeMsg, RXChannelState, RawEventMsg,
    RawFWLogMsg, RawKTraceMsg, RawStatsMsg, TXChannelState,
};
use crate::fw::initdata::ChannelRing;
use crate::fw::types::{get_u32, le_u32};
use crate::gpu::KernelAllocators;
use crate::mmu::{lemma_page_ceil, page_ceil};
use crate::ring::{
    lemma_ring_advance, lemma_ring_len, lemma_ring_next, lemma_ring_recv, lemma_ring_send, ring_next,
    Ring,
};

verus! {

/// Returns the index behind `p` in a ring of `count` slots.
pub fn next_index(p: u32, count: u32) -> (r: u32)
    requires
        p < count,
    ensures
        r == ring_next(p as int, count as int),
        r < count,
{
    proof {
        lemma_ring_next(p as int, count as int);
    }
    (p + 1) % count
}

/// The host's end of a channel on which the firmware sends.
///
/// The host keeps a read index of its own for each sub-channel and
/// publishes it in the pointer cells after each message it has taken.
pub struct RXChannel<T: RXChannelState, U: Copy + Default> {
    ring: ChannelRing<T, U>,
    rptr: [u32; 6],
    count: u32,
}

impl<T: RXChannelState, U: Copy + Default> RXChannel<T, U> {
    /// The number of slots.
    pub closed spec fn spec_count(&self) -> u32 {
        self.count
    }

    /// What the slots hold.
    pub closed spec fn spec_slots(&self) -> Seq<U> {
        self.ring.ring@
    }

    /// The host's read index of sub-channel `index`.
    pub closed spec fn spec_rptr(&self, index: int) -> u32 {
        self.rptr@[index]
    }

    /// The read index of sub-channel `index` as the pointer cells show it.
    pub closed spec fn spec_hw_rptr(&self, index: int) -> u32 {
        T::spec_rptr(self.ring.state.spec_raw(), index)
    }

    /// The write index of sub-channel `index` as the pointer cells show it.
    pub closed spec fn spec_hw_wptr(&self, index: int) -> u32 {
        T::spec_wptr(self.ring.state.spec_raw(), index)
    }

    /// The GPU virtual address of the pointer cells.
    pub closed spec fn spec_state_va(&self) -> u64 {
        self.ring.state.spec_gpu_va()
    }

    /// The GPU virtual address of the first slot.
    pub closed spec fn spec_ring_va(&self) -> u64 {
        self.ring.ring.spec_gpu_va()
    }

    /// There is a slot; every index names one; the pointer cells show the
    /// host's read indices.
    pub closed spec fn wf(&self) -> bool {
        &&& self.ring.wf()
        &&& self.count > 0
        &&& self.ring.ring@.len() == self.count
        &&& forall|i: int|
            0 <= i < T::sub_channels() ==> {
                &&& (#[trigger] self.spec_rptr(i)) < self.count
                &&& self.spec_hw_rptr(i) == self.spec_rptr(i)
                &&& self.spec_hw_wptr(i) < self.count
            }
    }

    /// Sub-channel `index` as a ring: the firmware writes, the host reads.
    pub open spec fn spec_ring(&self, index: int) -> Ring<U> {
        Ring {
            slots: self.spec_slots(),
            rptr: self.spec_rptr(index) as int,
            wptr: self.spec_hw_wptr(index) as int,
        }
    }

    /// In a well-formed channel every sub-channel is a well-formed ring of
    /// `spec_count()` slots.
    pub proof fn lemma_wf(&self, index: int)
        requires
            self.wf(),
            0 <= index < T::sub_channels(),
        ensures
            self.spec_ring(index).wf(),
            self.spec_ring(index).count() == self.spec_count(),
            self.spec_count() > 0,
            self.spec_hw_rptr(index) == self.spec_rptr(index),
    {
        assert(self.spec_rptr(index) < self.count);
    }

    /// How `new` ends: `InvalidArgument` where `count` is 0 or no `u32`,
    /// else as the two allocations end, the pointer cells first and the
    /// slots behind them, both in shared memory; `NoMemory` where the size
    /// of the slots is no `usize`.
    pub open spec fn creatable(alloc: KernelAllocators, count: usize) -> Result<(), Error> {
        if count == 0 || count > u32::MAX {
            Err(Error::InvalidArgument)
        } else {
            match alloc.shared.fits(
                size_of::<T::Raw>() as int,
                alloc.shared.align_for(align_of::<T::Raw>()),
                0,
            ) {
                Err(e) => Err(e),
                Ok(_) => if count * size_of::<U>() > usize::MAX {
                    Err(Error::NoMemory)
                } else {
                    alloc.shared.fits(
                        count * size_of::<U>(),
                        alloc.shared.align_for(align_of::<U>()),
                        page_ceil(size_of::<T::Raw>() as int),
                    )
                },
            }
        }
    }

    /// The bytes of shared memory that `new` takes for `count` slots: whole
    /// pages for the pointer cells and whole pages for the slots.
    pub open spec fn need(count: usize) -> int {
        page_ceil(size_of::<T::Raw>() as int) + page_ceil(count * size_of::<U>())
    }

    /// With least alignments that are powers of two, `new` fails for want
    /// of room only.
    pub proof fn lemma_creatable(alloc: KernelAllocators, count: usize)
        requires
            alloc.wf(),
            is_pow2(alloc.shared.spec_min_align() as int),
            align_of::<T::Raw>() <= usize::MAX,
            align_of::<U>() <= usize::MAX,
            0 < count <= u32::MAX,
        ensures
            Self::creatable(alloc, count) == (if Self::need(count) <= alloc.shared.room() {
                Ok::<(), Error>(())
            } else {
                Err::<(), Error>(Error::NoMemory)
            }),
            0 <= Self::need(count),
    {
        lemma_fits::<T::Raw>(alloc.shared, size_of::<T::Raw>() as int, 0);
        let taken = page_ceil(size_of::<T::Raw>() as int);
        assert(0 <= count * size_of::<U>()) by (nonlinear_arith)
            requires
                0 < count,
        ;
        lemma_fits::<U>(alloc.shared, count * size_of::<U>(), taken);
        lemma_page_ceil(count * size_of::<U>());
    }

    /// Makes a channel of `count` slots that holds nothing: every index is
    /// 0 and every slot holds the default message.
    ///
    /// Fails as `creatable` says, and then gives back what it took from the
    /// allocators.
    pub fn new(alloc: &mut KernelAllocators, count: usize) -> (r: Result<RXChannel<T, U>, Error>)
        requires
            old(alloc).wf(),
        ensures
            final(alloc).follows(*old(alloc)),
            final(alloc).private == old(alloc).private,
            final(alloc).gpu == old(alloc).gpu,
            r is Err ==> final(alloc).same_as(*old(alloc)),
            match r {
                Ok(ch) => {
                    &&& Self::creatable(*old(alloc), count) is Ok
                    &&& ch.wf()
                    &&& ch.spec_count() == count
                    &&& ch.spec_slots().len() == count
                    &&& forall|i: int|
                        0 <= i < count ==> call_ensures(
                            U::default,
                            (),
                            #[trigger] ch.spec_slots()[i],
                        )
                    &&& forall|i: int|
                        0 <= i < T::sub_channels() ==> (#[trigger] ch.spec_ring(i)).is_empty()
                            && ch.spec_rptr(i) == 0
                    &&& final(alloc).shared.room() == old(alloc).shared.room() - page_ceil(
                        size_of::<T::Raw>() as int,
                    ) - page_ceil(count * size_of::<U>())
                },
                Err(e) => Self::creatable(*old(alloc), count) == Err::<(), Error>(e),
            },
    {
        if count == 0 || count > u32::MAX as usize {
            return Err(Error::InvalidArgument);
        }
        let mark = alloc.shared.mark();
        let cells = T::fresh();
        let fill = move |_inner: &T| -> (r: T::Raw)
            ensures
                r == cells,
            {
                cells
            };
        let state = match alloc.shared.new_object(T::default(), fill) {
            Ok(o) => o,
            Err(e) => {
                return Err(e);
            },
        };
        proof {
            lemma_page_ceil(size_of::<T::Raw>() as int);
        }
        let ring = match alloc.shared.new_array::<U>(count) {
            Ok(a) => a,
            Err(e) => {
                alloc.shared.rewind(mark);
                return Err(e);
            },
        };
        let rptr = [0u32; 6];
        assert(rptr == vstd::array::spec_array_fill_for_copy_type::<u32, 6>(0u32));
        let ch = RXChannel { ring: ChannelRing { state, ring }, rptr, count: count as u32 };
        proof {
            T::lemma_sub_channels();
            assert forall|i: int| 0 <= i < T::sub_channels() implies {
                &&& (#[trigger] ch.spec_rptr(i)) < ch.count
                &&& ch.spec_hw_rptr(i) == ch.spec_rptr(i)
                &&& ch.spec_hw_wptr(i) < ch.count
            } by {
                assert(ch.rptr@[i] == 0);
            }
        }
        Ok(ch)
    }

    /// Takes the next message of sub-channel `index`, if the firmware has
    /// sent one.
    ///
    /// With nothing pending the channel stays as it is. Else the oldest
    /// pending message is returned and the read index moves on by one, in
    /// the host's copy and in the pointer cells; the slots and all other
    /// indices stay.
    pub fn get(&mut self, index: usize) -> (r: Option<U>)
        requires
            old(self).wf(),
            index < T::sub_channels(),
        ensures
            final(self).wf(),
            final(self).spec_count() == old(self).spec_count(),
            final(self).spec_slots() == old(self).spec_slots(),
            final(self).spec_state_va() == old(self).spec_state_va(),
            final(self).spec_ring_va() == old(self).spec_ring_va(),
            forall|i: int|
                0 <= i < T::sub_channels() && i != index ==> (#[trigger] final(self).spec_ring(i))
                    == old(self).spec_ring(i),
            match r {
                None => {
                    &&& old(self).spec_ring(index as int).is_empty()
                    &&& final(self).spec_ring(index as int) == old(self).spec_ring(index as int)
                },
                Some(m) => {
                    &&& !old(self).spec_ring(index as int).is_empty()
                    &&& m == old(self).spec_ring(index as int).front()
                    &&& m == old(self).spec_ring(index as int).pending()[0]
                    &&& final(self).spec_ring(index as int) == old(self).spec_ring(
                        index as int,
                    ).recv()
                    &&& final(self).spec_ring(index as int).pending() == old(self).spec_ring(
                        index as int,
                    ).pending().drop_first()
                },
            },
    {
        proof {
            T::lemma_sub_channels();
            old(self).lemma_wf(index as int);
        }
        let read = |raw: &T::Raw, _inner: &T| -> (r: u32)
            ensures
                r == T::spec_wptr(*raw, index as int),
            {
                T::wptr(raw, index)
            };
        let wptr = self.ring.state.with(read);
        let rptr = self.rptr[index];
        if wptr == rptr {
            return None;
        }
        proof {
            lemma_ring_recv(old(self).spec_ring(index as int));
        }
        let msg = *self.ring.ring.index(rptr as usize);
        let next = next_index(rptr, self.count);
        self.rptr[index] = next;
        let publish = |raw: &mut T::Raw, _inner: &mut T|
            ensures
                T::spec_rptr(*final(raw), index as int) == next,
                forall|i: int|
                    0 <= i < T::sub_channels() && i != index ==> T::spec_rptr(*final(raw), i)
                        == T::spec_rptr(*old(raw), i),
                forall|i: int|
                    0 <= i < T::sub_channels() ==> T::spec_wptr(*final(raw), i) == T::spec_wptr(
                        *old(raw),
                        i,
                    ),
            {
                T::set_rptr(raw, index, next)
            };
        self.ring.state.with_mut(publish);
        proof {
            assert forall|i: int| 0 <= i < T::sub_channels() implies {
                &&& (#[trigger] self.spec_rptr(i)) < self.count
                &&& self.spec_hw_rptr(i) == self.spec_rptr(i)
                &&& self.spec_hw_wptr(i) < self.count
            } by {
                assert(old(self).spec_rptr(i) < old(self).count);
            }
            assert forall|i: int| 0 <= i < T::sub_channels() && i != index implies (
            #[trigger] self.spec_ring(i)) == old(self).spec_ring(i) by {
                assert(old(self).spec_rptr(i) < old(self).count);
            }
        }
        Some(msg)
    }

    /// Takes every pending message of sub-channel `index`, oldest first.
    ///
    /// Afterwards nothing is pending there; the slots and the other
    /// sub-channels stay as they are.
    pub fn drain(&mut self, index: usize) -> (r: Vec<U>)
        requires
            old(self).wf(),
            index < T::sub_channels(),
        ensures
            final(self).wf(),
            final(self).spec_count() == old(self).spec_count(),
            final(self).spec_slots() == old(self).spec_slots(),
            final(self).spec_state_va() == old(self).spec_state_va(),
            final(self).spec_ring_va() == old(self).spec_ring_va(),
            forall|i: int|
                0 <= i < T::sub_channels() && i != index ==> (#[trigger] final(self).spec_ring(i))
                    == old(self).spec_ring(i),
            r@ == old(self).spec_ring(index as int).pending(),
            final(self).spec_ring(index as int).is_empty(),
            final(self).spec_ring(index as int).wptr == old(self).spec_ring(index as int).wptr,
    {
        let mut out: Vec<U> = Vec::new();
        proof {
            old(self).lemma_wf(index as int);
            assert(out@ + self.spec_ring(index as int).pending() =~= old(self).spec_ring(
                index as int,
            ).pending());
        }
        loop
            invariant
                self.wf(),
                index < T::sub_channels(),
                self.spec_count() == old(self).spec_count(),
                self.spec_slots() == old(self).spec_slots(),
                self.spec_state_va() == old(self).spec_state_va(),
                self.spec_ring_va() == old(self).spec_ring_va(),
                forall|i: int|
                    0 <= i < T::sub_channels() && i != index ==> (#[trigger] self.spec_ring(i))
                        == old(self).spec_ring(i),
                out@ + self.spec_ring(index as int).pending() == old(self).spec_ring(
                    index as int,
                ).pending(),
                self.spec_ring(index as int).wptr == old(self).spec_ring(index as int).wptr,
            ensures
                self.spec_ring(index as int).is_empty(),
            decreases self.spec_ring(index as int).len(),
        {
            let ghost before = self.spec_ring(index as int);
            proof {
                self.lemma_wf(index as int);
                lemma_ring_len(before);
                if !before.is_empty() {
                    lemma_ring_recv(before);
                }
            }
            match self.get(index) {
                None => {
                    break ;
                },
                Some(m) => {
                    out.push(m);
                    proof {
                        assert(seq![m] + before.pending().drop_first() =~= before.pending());
                        assert(out@ + self.spec_ring(index as int).pending() =~= old(
                            self,
                        ).spec_ring(index as int).pending());
                    }
                },
            }
        }
        proof {
            self.lemma_wf(index as int);
            lemma_ring_len(self.spec_ring(index as int));
            assert(out@ + self.spec_ring(index as int).pending() =~= out@);
        }
        out
    }

    /// Returns the number of slots.
    pub fn count(&self) -> (r: u32)
        ensures
            r == self.spec_count(),
    {
        self.count
    }

    /// Returns where the firmware finds the pointer cells and the slots.
    pub fn to_raw(&self) -> (r: crate::fw::initdata::raw::ChannelRing<T, U>)
        requires
            self.wf(),
        ensures
            r.state.spec_addr() == self.spec_state_va(),
            r.ring.spec_addr() == self.spec_ring_va(),
    {
        self.ring.to_raw()
    }

    /// What the firmware does to send `msg` on sub-channel `index`.
    ///
    /// With the ring full nothing changes and the answer is `Busy`. Else
    /// `msg` goes into the slot at the write index and the write index moves
    /// on by one; the other slots and all other indices stay.
    pub fn firmware_post(&mut self, index: usize, msg: &U) -> (r: Result<(), Error>)
        requires
            old(self).wf(),
            index < T::sub_channels(),
        ensures
            final(self).wf(),
            final(self).spec_count() == old(self).spec_count(),
            final(self).spec_state_va() == old(self).spec_state_va(),
            final(self).spec_ring_va() == old(self).spec_ring_va(),
            forall|i: int|
                0 <= i < T::sub_channels() ==> (#[trigger] final(self).spec_rptr(i)) == old(
                    self,
                ).spec_rptr(i),
            forall|i: int|
                0 <= i < T::sub_channels() && i != index ==> (#[trigger] final(self).spec_hw_wptr(
                    i,
                )) == old(self).spec_hw_wptr(i),
            match r {
                Err(e) => {
                    &&& e == Error::Busy
                    &&& old(self).spec_ring(index as int).is_full()
                    &&& final(self).spec_ring(index as int) == old(self).spec_ring(index as int)
                },
                Ok(_) => {
                    &&& !old(self).spec_ring(index as int).is_full()
                    &&& final(self).spec_ring(index as int) == old(self).spec_ring(
                        index as int,
                    ).send(*msg)
                    &&& final(self).spec_ring(index as int).pending() == old(self).spec_ring(
                        index as int,
                    ).pending().push(*msg)
                },
            },
    {
        proof {
            T::lemma_sub_channels();
            old(self).lemma_wf(index as int);
        }
        let read = |raw: &T::Raw, _inner: &T| -> (r: (u32, u32))
            ensures
                r.0 == T::spec_rptr(*raw, index as int),
                r.1 == T::spec_wptr(*raw, index as int),
            {
                (T::rptr(raw, index), T::wptr(raw, index))
            };
        let (rptr, wptr) = self.ring.state.with(read);
        let next = next_index(wptr, self.count);
        if next == rptr {
            return Err(Error::Busy);
        }
        proof {
            lemma_ring_send(old(self).spec_ring(index as int), *msg);
        }
        let slot = self.ring.ring.index_mut(wptr as usize);
        *slot = *msg;
        let publish = |raw: &mut T::Raw, _inner: &mut T|
            ensures
                T::spec_wptr(*final(raw), index as int) == next,
                forall|i: int|
                    0 <= i < T::sub_channels() && i != index ==> T::spec_wptr(*final(raw), i)
                        == T::spec_wptr(*old(raw), i),
                forall|i: int|
                    0 <= i < T::sub_channels() ==> T::spec_rptr(*final(raw), i) == T::spec_rptr(
                        *old(raw),
                        i,
                    ),
            {
                T::set_wptr(raw, index, next)
            };
        self.ring.state.with_mut(publish);
        proof {
            assert forall|i: int| 0 <= i < T::sub_channels() implies {
                &&& (#[trigger] self.spec_rptr(i)) < self.count
                &&& self.spec_hw_rptr(i) == self.spec_rptr(i)
                &&& self.spec_hw_wptr(i) < self.count
            } by {
                assert(old(self).spec_rptr(i) < old(self).count);
            }
        }
        Ok(())
    }
}

/// The host's end of a channel on which the host sends.
///
/// The host keeps a write index of its own and publishes it in the pointer
/// cell after each message it has written.
pub struct TXChannel<T: TXChannelState, U: Copy + Default> {
    ring: ChannelRing<T, U>,
    wptr: u32,
    count: u32,
}

impl<T: TXChannelState, U: Copy + Default> TXChannel<T, U> {
    /// The number of slots.
    pub closed spec fn spec_count(&self) -> u32 {
        self.count
    }

    /// What the slots hold.
    pub closed spec fn spec_slots(&self) -> Seq<U> {
        self.ring.ring@
    }

    /// The host's write index.
    pub closed spec fn spec_wptr(&self) -> u32 {
        self.wptr
    }

    /// The read index as the pointer cell shows it.
    pub closed spec fn spec_hw_rptr(&self) -> u32 {
        T::spec_rptr(self.ring.state.spec_raw())
    }

    /// The write index as the pointer cell shows it.
    pub closed spec fn spec_hw_wptr(&self) -> u32 {
        T::spec_wptr(self.ring.state.spec_raw())
    }

    /// The GPU virtual address of the pointer cell.
    pub closed spec fn spec_state_va(&self) -> u64 {
        self.ring.state.spec_gpu_va()
    }

    /// The GPU virtual address of the first slot.
    pub closed spec fn spec_ring_va(&self) -> u64 {
        self.ring.ring.spec_gpu_va()
    }

    /// There is a slot; every index names one; the pointer cell shows the
    /// host's write index.
    pub closed spec fn wf(&self) -> bool {
        &&& self.ring.wf()
        &&& self.count > 0
        &&& self.ring.ring@.len() == self.count
        &&& self.wptr < self.count
        &&& self.spec_hw_wptr() == self.wptr
        &&& self.spec_hw_rptr() < self.count
    }

    /// The channel as a ring: the host writes, the firmware reads.
    pub open spec fn spec_ring(&self) -> Ring<U> {
        Ring {
            slots: self.spec_slots(),
            rptr: self.spec_hw_rptr() as int,
            wptr: self.spec_wptr() as int,
        }
    }

    /// A well-formed channel is a well-formed ring of `spec_count()` slots.
    pub proof fn lemma_wf(&self)
        requires
            self.wf(),
        ensures
            self.spec_ring().wf(),
            self.spec_ring().count() == self.spec_count(),
            self.spec_count() > 0,
            self.spec_hw_wptr() == self.spec_wptr(),
    {
    }

    /// How `new` ends: `InvalidArgument` where `count` is 0 or no `u32`,
    /// else as the two allocations end, the pointer cell in shared memory
    /// first and then the slots in private memory; `NoMemory` where the size
    /// of the slots is no `usize`.
    pub open spec fn creatable(alloc: KernelAllocators, count: usize) -> Result<(), Error> {
        if count == 0 || count > u32::MAX {
            Err(Error::InvalidArgument)
        } else {
            match alloc.shared.fits(
                size_of::<T::Raw>() as int,
                alloc.shared.align_for(align_of::<T::Raw>()),
                0,
            ) {
                Err(e) => Err(e),
                Ok(_) => if count * size_of::<U>() > usize::MAX {
                    Err(Error::NoMemory)
                } else {
                    alloc.private.fits(
                        count * size_of::<U>(),
                        alloc.private.align_for(align_of::<U>()),
                        0,
                    )
                },
            }
        }
    }

    /// The bytes of shared memory that `new` takes: whole pages for the
    /// pointer cell.
    pub open spec fn shared_need() -> int {
        page_ceil(size_of::<T::Raw>() as int)
    }

    /// The bytes of private memory that `new` takes for `count` slots:
    /// whole pages.
    pub open spec fn private_need(count: usize) -> int {
        page_ceil(count * size_of::<U>())
    }

    /// With least alignments that are powers of two, `new` fails for want
    /// of room only.
    pub proof fn lemma_creatable(alloc: KernelAllocators, count: usize)
        requires
            alloc.wf(),
            is_pow2(alloc.shared.spec_min_align() as int),
            is_pow2(alloc.private.spec_min_align() as int),
            align_of::<T::Raw>() <= usize::MAX,
            align_of::<U>() <= usize::MAX,
            0 < count <= u32::MAX,
        ensures
            Self::creatable(alloc, count) == (if Self::shared_need() <= alloc.shared.room()
                && Self::private_need(count) <= alloc.private.room() {
                Ok::<(), Error>(())
            } else {
                Err::<(), Error>(Error::NoMemory)
            }),
            0 <= Self::shared_need(),
            0 <= Self::private_need(count),
    {
        lemma_fits::<T::Raw>(alloc.shared, size_of::<T::Raw>() as int, 0);
        assert(0 <= count * size_of::<U>()) by (nonlinear_arith)
            requires
                0 < count,
        ;
        lemma_fits::<U>(alloc.private, count * size_of::<U>(), 0);
        lemma_page_ceil(count * size_of::<U>());
    }

    /// Makes a channel of `count` slots that holds nothing: every index is
    /// 0 and every slot holds the default message.
    ///
    /// Fails as `creatable` says, and then gives back what it took from the
    /// allocators.
    pub fn new(alloc: &mut KernelAllocators, count: usize) -> (r: Result<TXChannel<T, U>, Error>)
        requires
            old(alloc).wf(),
        ensures
            final(alloc).follows(*old(alloc)),
            final(alloc).gpu == old(alloc).gpu,
            r is Err ==> final(alloc).same_as(*old(alloc)),
            match r {
                Ok(ch) => {
                    &&& Self::creatable(*old(alloc), count) is Ok
                    &&& ch.wf()
                    &&& ch.spec_count() == count
                    &&& ch.spec_slots().len() == count
                    &&& forall|i: int|
                        0 <= i < count ==> call_ensures(
                            U::default,
                            (),
                            #[trigger] ch.spec_slots()[i],
                        )
                    &&& ch.spec_ring().is_empty()
                    &&& ch.spec_wptr() == 0
                    &&& final(alloc).shared.room() == old(alloc).shared.room() - page_ceil(
                        size_of::<T::Raw>() as int,
                    )
                    &&& final(alloc).private.room() == old(alloc).private.room() - page_ceil(
                        count * size_of::<U>(),
                    )
                },
                Err(e) => Self::creatable(*old(alloc), count) == Err::<(), Error>(e),
            },
    {
        if count == 0 || count > u32::MAX as usize {
            return Err(Error::InvalidArgument);
        }
        let mark = alloc.shared.mark();
        let cells = T::fresh();
        let fill = move |_inner: &T| -> (r: T::Raw)
            ensures
                r == cells,
            {
                cells
            };
        let state = match alloc.shared.new_object(T::default(), fill) {
            Ok(o) => o,
            Err(e) => {
                return Err(e);
            },
        };
        let ring = match alloc.private.new_array::<U>(count) {
            Ok(a) => a,
            Err(e) => {
                alloc.shared.rewind(mark);
                return Err(e);
            },
        };
        Ok(TXChannel { ring: ChannelRing { state, ring }, wptr: 0, count: count as u32 })
    }

    /// Sends `msg`, if the ring has room.
    ///
    /// With the ring full nothing changes and the answer is `Busy`: the
    /// caller waits for the firmware to take a message and tries again.
    /// Else `msg` goes into the slot at the write index and the write index
    /// moves on by one, in the host's copy and in the pointer cell; the
    /// other slots and the read index stay.
    pub fn put(&mut self, msg: &U) -> (r: Result<(), Error>)
        requires
            old(self).wf(),
        ensures
            final(self).wf(),
            final(self).spec_count() == old(self).spec_count(),
            final(self).spec_state_va() == old(self).spec_state_va(),
            final(self).spec_ring_va() == old(self).spec_ring_va(),
            match r {
                Err(e) => {
                    &&& e == Error::Busy
                    &&& old(self).spec_ring().is_full()
                    &&& final(self).spec_ring() == old(self).spec_ring()
                },
                Ok(_) => {
                    &&& !old(self).spec_ring().is_full()
                    &&& final(self).spec_ring() == old(self).spec_ring().send(*msg)
                    &&& final(self).spec_ring().pending() == old(self).spec_ring().pending().push(
                        *msg,
                    )
                    &&& !final(self).spec_ring().is_empty()
                },
            },
    {
        let next_wptr = next_index(self.wptr, self.count);
        let read = |raw: &T::Raw, _inner: &T| -> (r: u32)
            ensures
                r == T::spec_rptr(*raw),
            {
                T::rptr(raw)
            };
        let rptr = self.ring.state.with(read);
        if next_wptr == rptr {
            return Err(Error::Busy);
        }
        proof {
            lemma_ring_send(old(self).spec_ring(), *msg);
        }
        let slot = self.ring.ring.index_mut(self.wptr as usize);
        *slot = *msg;
        let publish = |raw: &mut T::Raw, _inner: &mut T|
            ensures
                T::spec_wptr(*final(raw)) == next_wptr,
                T::spec_rptr(*final(raw)) == T::spec_rptr(*old(raw)),
            {
                T::set_wptr(raw, next_wptr)
            };
        self.ring.state.with_mut(publish);
        self.wptr = next_wptr;
        Ok(())
    }

    /// Takes note that the firmware's read index is `rptr` by now: the
    /// firmware has taken the messages between the old read index and
    /// `rptr`, oldest first. The slots, the write index and the messages
    /// behind `rptr` stay.
    ///
    /// An index that the firmware cannot have come to, because it names no
    /// slot or lies beyond what was sent, is refused with `InvalidArgument`,
    /// and nothing changes.
    pub fn firmware_advance(&mut self, rptr: u32) -> (r: Result<(), Error>)
        requires
            old(self).wf(),
        ensures
            final(self).wf(),
            final(self).spec_count() == old(self).spec_count(),
            final(self).spec_slots() == old(self).spec_slots(),
            final(self).spec_wptr() == old(self).spec_wptr(),
            final(self).spec_state_va() == old(self).spec_state_va(),
            final(self).spec_ring_va() == old(self).spec_ring_va(),
            match r {
                Ok(_) => {
                    &&& old(self).spec_ring().reaches(rptr as int)
                    &&& final(self).spec_ring() == old(self).spec_ring().advance(rptr as int)
                    &&& final(self).spec_ring().pending() == old(self).spec_ring().pending().skip(
                        old(self).spec_ring().distance(rptr as int),
                    )
                },
                Err(e) => {
                    &&& e == Error::InvalidArgument
                    &&& !old(self).spec_ring().reaches(rptr as int)
                    &&& final(self).spec_ring() == old(self).spec_ring()
                },
            },
    {
        let read = |raw: &T::Raw, _inner: &T| -> (r: u32)
            ensures
                r == T::spec_rptr(*raw),
            {
                T::rptr(raw)
            };
        let seen = self.ring.state.with(read);
        if rptr >= self.count {
            return Err(Error::InvalidArgument);
        }
        let pending = if self.wptr >= seen {
            self.wptr - seen
        } else {
            self.wptr + (self.count - seen)
        };
        let taken = if rptr >= seen {
            rptr - seen
        } else {
            rptr + (self.count - seen)
        };
        if taken > pending {
            return Err(Error::InvalidArgument);
        }
        proof {
            lemma_ring_advance(old(self).spec_ring(), rptr as int);
        }
        let publish = |raw: &mut T::Raw, _inner: &mut T|
            ensures
                T::spec_rptr(*final(raw)) == rptr,
                T::spec_wptr(*final(raw)) == T::spec_wptr(*old(raw)),
            {
                T::set_rptr(raw, rptr)
            };
        self.ring.state.with_mut(publish);
        Ok(())
    }

    /// Whether the firmware is seen to take something after every wait:
    /// whatever `wait` answers is an index that the firmware can have come
    /// to in this ring, and not the read index of the ring.
    pub open spec fn drains<W: Fn(u64) -> u32>(&self, wait: &W) -> bool {
        forall|millis: u64, seen: u32| #[trigger]
            wait.ensures((millis,), seen) ==> self.spec_ring().reaches(seen as int) && seen
                != self.spec_ring().rptr
    }

    /// Sends `msg`, waiting while the ring is full. After each attempt that
    /// finds the ring full, `wait` is called with the milliseconds to let
    /// pass and answers with the firmware's read index as it is then, of
    /// which note is taken as `firmware_advance` does.
    ///
    /// With room in the ring `msg` is sent at once. On a full ring, `msg`
    /// is sent after the first wait that shows the firmware to have taken
    /// something. Gives up with `TimedOut` once the ring has been found
    /// full `limit` times and once more; the ring is full then, and `msg`
    /// is not in it. Gives up with `InvalidArgument` where `wait` answers
    /// with an index that the firmware cannot have come to.
    pub fn put_waiting<W: Fn(u64) -> u32>(&mut self, msg: &U, limit: u32, wait: &W) -> (r: Result<
        (),
        Error,
    >)
        requires
            old(self).wf(),
            forall|millis: u64| #[trigger] wait.requires((millis,)),
        ensures
            final(self).wf(),
            final(self).spec_count() == old(self).spec_count(),
            final(self).spec_state_va() == old(self).spec_state_va(),
            final(self).spec_ring_va() == old(self).spec_ring_va(),
            !old(self).spec_ring().is_full() ==> r is Ok && final(self).spec_ring() == old(
                self,
            ).spec_ring().send(*msg),
            old(self).spec_ring().is_full() && limit == 0 ==> r == Err::<(), Error>(
                Error::TimedOut,
            ) && final(self).spec_ring() == old(self).spec_ring(),
            old(self).spec_ring().is_full() && limit > 0 && old(self).drains(wait) ==> r is Ok
                && exists|seen: u32|
                {
                    &&& #[trigger] wait.ensures((RETRY_MILLIS,), seen)
                    &&& final(self).spec_ring() == old(self).spec_ring().advance(seen as int).send(
                        *msg,
                    )
                },
            match r {
                Ok(_) => {
                    &&& final(self).spec_ring().pending().len() > 0
                    &&& final(self).spec_ring().pending().last() == *msg
                },
                Err(e) => {
                    ||| e == Error::TimedOut && final(self).spec_ring().is_full()
                    ||| e == Error::InvalidArgument && exists|millis: u64, seen: u32|
                        {
                            &&& #[trigger] wait.ensures((millis,), seen)
                            &&& !final(self).spec_ring().reaches(seen as int)
                        }
                },
            },
    {
        let mut pressure = Backpressure::new(limit);
        loop
            invariant
                self.wf(),
                self.spec_count() == old(self).spec_count(),
                self.spec_state_va() == old(self).spec_state_va(),
                self.spec_ring_va() == old(self).spec_ring_va(),
                pressure.waits == 0 ==> self.spec_ring() == old(self).spec_ring(),
                pressure.waits > 0 ==> old(self).spec_ring().is_full() && limit > 0,
                pressure.waits > 0 && old(self).drains(wait) ==> !self.spec_ring().is_full()
                    && exists|seen: u32|
                    {
                        &&& #[trigger] wait.ensures((RETRY_MILLIS,), seen)
                        &&& self.spec_ring() == old(self).spec_ring().advance(seen as int)
                    },
                pressure.limit == limit,
                pressure.waits <= limit,
                forall|millis: u64| #[trigger] wait.requires((millis,)),
            decreases limit - pressure.waits,
        {
            let ghost before = self.spec_ring();
            let ghost first = pressure.waits == 0;
            match self.put(msg) {
                Ok(_) => {
                    return Ok(());
                },
                Err(_) => {
                    match pressure.full() {
                        Ok(millis) => {
                            let seen = wait(millis);
                            match self.firmware_advance(seen) {
                                Ok(_) => {
                                    proof {
                                        lemma_ring_advance(before, seen as int);
                                        if old(self).drains(wait) {
                                            assert(first);
                                            assert(wait.ensures((RETRY_MILLIS,), seen));
                                        }
                                    }
                                },
                                Err(e) => {
                                    proof {
                                        assert(wait.ensures((millis,), seen));
                                    }
                                    return Err(e);
                                },
                            }
                        },
                        Err(e) => {
                            return Err(e);
                        },
                    }
                },
            }
        }
    }

    /// Returns the number of slots.
    pub fn count(&self) -> (r: u32)
        ensures
            r == self.spec_count(),
    {
        self.count
    }

    /// Returns where the firmware finds the pointer cell and the slots.
    pub fn to_raw(&self) -> (r: crate::fw::initdata::raw::ChannelRing<T, U>)
        requires
            self.wf(),
        ensures
            r.state.spec_addr() == self.spec_state_va(),
            r.ring.spec_addr() == self.spec_ring_va(),
    {
        self.ring.to_raw()
    }

    /// What the firmware does to take the next message.
    ///
    /// With nothing pending the channel stays as it is. Else the oldest
    /// pending message is returned and the read index in the pointer cell
    /// moves on by one; the slots and the write index stay.
    pub fn firmware_take(&mut self) -> (r: Option<U>)
        requires
            old(self).wf(),
        ensures
            final(self).wf(),
            final(self).spec_count() == old(self).spec_count(),
            final(self).spec_slots() == old(self).spec_slots(),
            final(self).spec_wptr() == old(self).spec_wptr(),
            final(self).spec_state_va() == old(self).spec_state_va(),
            final(self).spec_ring_va() == old(self).spec_ring_va(),
            match r {
                None => {
                    &&& old(self).spec_ring().is_empty()
                    &&& final(self).spec_ring() == old(self).spec_ring()
                },
                Some(m) => {
                    &&& !old(self).spec_ring().is_empty()
                    &&& m == old(self).spec_ring().front()
                    &&& m == old(self).spec_ring().pending()[0]
                    &&& final(self).spec_ring() == old(self).spec_ring().recv()
                    &&& final(self).spec_ring().pending() == old(
                        self,
                    ).spec_ring().pending().drop_first()
                    &&& !final(self).spec_ring().is_full()
                },
            },
    {
        let read = |raw: &T::Raw, _inner: &T| -> (r: (u32, u32))
            ensures
                r.0 == T::spec_rptr(*raw),
                r.1 == T::spec_wptr(*raw),
            {
                (T::rptr(raw), T::wptr(raw))
            };
        let (rptr, wptr) = self.ring.state.with(read);
        if rptr == wptr {
            return None;
        }
        proof {
            lemma_ring_recv(old(self).spec_ring());
        }
        let msg = *self.ring.ring.index(rptr as usize);
        let next = next_index(rptr, self.count);
        let publish = |raw: &mut T::Raw, _inner: &mut T|
            ensures
                T::spec_rptr(*final(raw)) == next,
                T::spec_wptr(*final(raw)) == T::spec_wptr(*old(raw)),
            {
                T::set_rptr(raw, next)
            };
        self.ring.state.with_mut(publish);
        Some(msg)
    }
}

/// How long the host waits between two attempts to send on a full ring,
/// in milliseconds.
pub const RETRY_MILLIS: u64 = 8;

/// Counts the attempts to send that have found the ring full, and tells
/// when to give up. A ring that stays full through `limit` waits in a row
/// is taken for a firmware that hangs.
#[derive(Clone, Copy, Debug, PartialEq, Eq, Structural)]
pub struct Backpressure {
    /// The waits since the last message was sent.
    pub waits: u32,
    /// The most waits in a row.
    pub limit: u32,
}

impl Backpressure {
    /// Starts the count, with at most `limit` waits in a row.
    pub fn new(limit: u32) -> (r: Backpressure)
        ensures
            r == (Backpressure { waits: 0, limit }),
    {
        Backpressure { waits: 0, limit }
    }

    /// Takes note of an attempt that found the ring full, and tells what to
    /// do: wait the milliseconds of the answer and try again, as long as
    /// fewer than `limit` waits in a row have passed; from then on give up
    /// with `TimedOut`.
    pub fn full(&mut self) -> (r: Result<u64, Error>)
        ensures
            final(self).limit == old(self).limit,
            old(self).waits < old(self).limit ==> r == Ok::<u64, Error>(RETRY_MILLIS)
                && final(self).waits == old(self).waits + 1,
            old(self).waits >= old(self).limit ==> r == Err::<u64, Error>(Error::TimedOut)
                && final(self).waits == old(self).waits,
    {
        if self.waits < self.limit {
            self.waits = self.waits + 1;
            Ok(RETRY_MILLIS)
        } else {
            Err(Error::TimedOut)
        }
    }

    /// Takes note of a message that was sent: the count starts again.
    pub fn sent(&mut self)
        ensures
            *final(self) == (Backpressure { waits: 0, limit: old(self).limit }),
    {
        self.waits = 0;
    }
}

/// The channel on which the host controls the device.
pub struct DeviceControlChannel {
    /// The host's end.
    pub ch: TXChannel<ChannelState, DeviceControlMsg>,
}

impl DeviceControlChannel {
    /// The number of slots of the channel.
    pub const COUNT: usize = 0x100;

    /// Makes the channel, with `COUNT` slots and nothing in them.
    ///
    /// Fails as `TXChannel::creatable` says.
    pub fn new(alloc: &mut KernelAllocators) -> (r: Result<DeviceControlChannel, Error>)
        requires
            old(alloc).wf(),
        ensures
            final(alloc).follows(*old(alloc)),
            final(alloc).gpu == old(alloc).gpu,
            r is Err ==> final(alloc).same_as(*old(alloc)),
            match r {
                Ok(c) => {
                    &&& TXChannel::<ChannelState, DeviceControlMsg>::creatable(*old(alloc), 0x100)
                        is Ok
                    &&& c.ch.wf()
                    &&& c.ch.spec_count() == 0x100
                    &&& c.ch.spec_ring().is_empty()
                    &&& final(alloc).shared.room() == old(alloc).shared.room() - TXChannel::<
                        ChannelState,
                        DeviceControlMsg,
                    >::shared_need()
                    &&& final(alloc).private.room() == old(alloc).private.room() - TXChannel::<
                        ChannelState,
                        DeviceControlMsg,
                    >::private_need(0x100)
                },
                Err(e) => TXChannel::<ChannelState, DeviceControlMsg>::creatable(
                    *old(alloc),
                    0x100,
                ) == Err::<(), Error>(e),
            },
    {
        match TXChannel::<ChannelState, DeviceControlMsg>::new(alloc, 0x100) {
            Ok(ch) => Ok(DeviceControlChannel { ch }),
            Err(e) => Err(e),
        }
    }

    /// Returns where the firmware finds the channel.
    pub fn to_raw(&self) -> (r: crate::fw::initdata::raw::ChannelRing<
        ChannelState,
        DeviceControlMsg,
    >)
        requires
            self.ch.wf(),
        ensures
            r.state.spec_addr() == self.ch.spec_state_va(),
            r.ring.spec_addr() == self.ch.spec_ring_va(),
    {
        self.ch.to_raw()
    }

    /// Sends `msg`, as `TXChannel::put` does.
    pub fn send(&mut self, msg: &DeviceControlMsg) -> (r: Result<(), Error>)
        requires
            old(self).ch.wf(),
        ensures
            final(self).ch.wf(),
            final(self).ch.spec_count() == old(self).ch.spec_count(),
            final(self).ch.spec_state_va() == old(self).ch.spec_state_va(),
            final(self).ch.spec_ring_va() == old(self).ch.spec_ring_va(),
            match r {
                Err(e) => {
                    &&& e == Error::Busy
                    &&& old(self).ch.spec_ring().is_full()
                    &&& final(self).ch.spec_ring() == old(self).ch.spec_ring()
                },
                Ok(_) => {
                    &&& !old(self).ch.spec_ring().is_full()
                    &&& final(self).ch.spec_ring() == old(self).ch.spec_ring().send(*msg)
                    &&& final(self).ch.spec_ring().pending() == old(
                        self,
                    ).ch.spec_ring().pending().push(*msg)
                },
            },
    {
        self.ch.put(msg)
    }
}

/// A channel on which the host tells one pipeline of new work.
pub struct PipeChannel {
    /// The host's end.
    pub ch: TXChannel<ChannelState, PipeMsg>,
}

impl PipeChannel {
    /// The number of slots of the channel.
    pub const COUNT: usize = 0x100;

    /// Makes the channel, with `COUNT` slots and nothing in them.
    ///
    /// Fails as `TXChannel::creatable` says.
    pub fn new(alloc: &mut KernelAllocators) -> (r: Result<PipeChannel, Error>)
        requires
            old(alloc).wf(),
        ensures
            final(alloc).follows(*old(alloc)),
            final(alloc).gpu == old(alloc).gpu,
            r is Err ==> final(alloc).same_as(*old(alloc)),
            match r {
                Ok(c) => {
                    &&& TXChannel::<ChannelState, PipeMsg>::creatable(*old(alloc), 0x100) is Ok
                    &&& c.ch.wf()
                    &&& c.ch.spec_count() == 0x100
                    &&& c.ch.spec_ring().is_empty()
                    &&& final(alloc).shared.room() == old(alloc).shared.room() - TXChannel::<
                        ChannelState,
                        PipeMsg,
                    >::shared_need()
                    &&& final(alloc).private.room() == old(alloc).private.room() - TXChannel::<
                        ChannelState,
                        PipeMsg,
                    >::private_need(0x100)
                },
                Err(e) => TXChannel::<ChannelState, PipeMsg>::creatable(*old(alloc), 0x100)
                    == Err::<(), Error>(e),
            },
    {
        match TXChannel::<ChannelState, PipeMsg>::new(alloc, 0x100) {
            Ok(ch) => Ok(PipeChannel { ch }),
            Err(e) => Err(e),
        }
    }

    /// Returns where the firmware finds the channel.
    pub fn to_raw(&self) -> (r: crate::fw::initdata::raw::ChannelRing<ChannelState, PipeMsg>)
        requires
            self.ch.wf(),
        ensures
            r.state.spec_addr() == self.ch.spec_state_va(),
            r.ring.spec_addr() == self.ch.spec_ring_va(),
    {
        self.ch.to_raw()
    }

    /// Sends `msg`, as `TXChannel::put` does.
    pub fn send(&mut self, msg: &PipeMsg) -> (r: Result<(), Error>)
        requires
            old(self).ch.wf(),
        ensures
            final(self).ch.wf(),
            final(self).ch.spec_count() == old(self).ch.spec_count(),
            final(self).ch.spec_state_va() == old(self).ch.spec_state_va(),
            final(self).ch.spec_ring_va() == old(self).ch.spec_ring_va(),
            match r {
                Err(e) => {
                    &&& e == Error::Busy
                    &&& old(self).ch.spec_ring().is_full()
                    &&& final(self).ch.spec_ring() == old(self).ch.spec_ring()
                },
                Ok(_) => {
                    &&& !old(self).ch.spec_ring().is_full()
                    &&& final(self).ch.spec_ring() == old(self).ch.spec_ring().send(*msg)
                    &&& final(self).ch.spec_ring().pending() == old(
                        self,
                    ).ch.spec_ring().pending().push(*msg)
                },
            },
    {
        self.ch.put(msg)
    }
}

/// The channel on which the firmware reports events.
pub struct EventChannel {
    /// The host's end.
    pub ch: RXChannel<ChannelState, RawEventMsg>,
}

impl EventChannel {
    /// The number of slots of the channel.
    pub const COUNT: usize = 0x100;

    /// Makes the channel, with `COUNT` slots and nothing in them.
    ///
    /// Fails as `RXChannel::creatable` says.
    pub fn new(alloc: &mut KernelAllocators) -> (r: Result<EventChannel, Error>)
        requires
            old(alloc).wf(),
        ensures
            final(alloc).follows(*old(alloc)),
            final(alloc).private == old(alloc).private,
            final(alloc).gpu == old(alloc).gpu,
            r is Err ==> final(alloc).same_as(*old(alloc)),
            match r {
                Ok(c) => {
                    &&& RXChannel::<ChannelState, RawEventMsg>::creatable(*old(alloc), 0x100) is Ok
                    &&& c.ch.wf()
                    &&& final(alloc).shared.room() == old(alloc).shared.room() - RXChannel::<
                        ChannelState,
                        RawEventMsg,
                    >::need(0x100)
                    &&& c.ch.spec_count() == 0x100
                    &&& c.ch.spec_ring(0).is_empty()
                },
                Err(e) => RXChannel::<ChannelState, RawEventMsg>::creatable(*old(alloc), 0x100)
                    == Err::<(), Error>(e),
            },
    {
        match RXChannel::<ChannelState, RawEventMsg>::new(alloc, 0x100) {
            Ok(ch) => Ok(EventChannel { ch }),
            Err(e) => Err(e),
        }
    }

    /// Returns where the firmware finds the channel.
    pub fn to_raw(&self) -> (r: crate::fw::initdata::raw::ChannelRing<ChannelState, RawEventMsg>)
        requires
            self.ch.wf(),
        ensures
            r.state.spec_addr() == self.ch.spec_state_va(),
            r.ring.spec_addr() == self.ch.spec_ring_va(),
    {
        self.ch.to_raw()
    }

    /// Takes every pending event, oldest first, and leaves none pending.
    pub fn poll(&mut self) -> (r: Vec<RawEventMsg>)
        requires
            old(self).ch.wf(),
        ensures
            final(self).ch.wf(),
            final(self).ch.spec_count() == old(self).ch.spec_count(),
            final(self).ch.spec_slots() == old(self).ch.spec_slots(),
            final(self).ch.spec_state_va() == old(self).ch.spec_state_va(),
            final(self).ch.spec_ring_va() == old(self).ch.spec_ring_va(),
            r@ == old(self).ch.spec_ring(0).pending(),
            final(self).ch.spec_ring(0).is_empty(),
    {
        self.ch.drain(0)
    }
}

/// The channel on which the firmware writes its log, in six streams.
pub struct FWLogChannel {
    /// The host's end.
    pub ch: RXChannel<FWLogChannelState, RawFWLogMsg>,
}

impl FWLogChannel {
    /// The number of slots of the channel.
    pub const COUNT: usize = 0x100;

    /// Makes the channel, with `COUNT` slots and nothing in them.
    ///
    /// Fails as `RXChannel::creatable` says.
    pub fn new(alloc: &mut KernelAllocators) -> (r: Result<FWLogChannel, Error>)
        requires
            old(alloc).wf(),
        ensures
            final(alloc).follows(*old(alloc)),
            final(alloc).private == old(alloc).private,
            final(alloc).gpu == old(alloc).gpu,
            r is Err ==> final(alloc).same_as(*old(alloc)),
            match r {
                Ok(c) => {
                    &&& RXChannel::<FWLogChannelState, RawFWLogMsg>::creatable(*old(alloc), 0x100)
                        is Ok
                    &&& c.ch.wf()
                    &&& final(alloc).shared.room() == old(alloc).shared.room() - RXChannel::<
                        FWLogChannelState,
                        RawFWLogMsg,
                    >::need(0x100)
                    &&& c.ch.spec_count() == 0x100
                    &&& forall|i: int| 0 <= i < 6 ==> (#[trigger] c.ch.spec_ring(i)).is_empty()
                },
                Err(e) => RXChannel::<FWLogChannelState, RawFWLogMsg>::creatable(
                    *old(alloc),
                    0x100,
                ) == Err::<(), Error>(e),
            },
    {
        match RXChannel::<FWLogChannelState, RawFWLogMsg>::new(alloc, 0x100) {
            Ok(ch) => Ok(FWLogChannel { ch }),
            Err(e) => Err(e),
        }
    }

    /// Returns where the firmware finds the channel.
    pub fn to_raw(&self) -> (r: crate::fw::initdata::raw::ChannelRing<
        FWLogChannelState,
        RawFWLogMsg,
    >)
        requires
            self.ch.wf(),
        ensures
            r.state.spec_addr() == self.ch.spec_state_va(),
            r.ring.spec_addr() == self.ch.spec_ring_va(),
    {
        self.ch.to_raw()
    }

    /// Takes every pending message of every stream: the answer holds, for
    /// each stream in turn, its messages, oldest first. None is left
    /// pending.
    pub fn poll(&mut self) -> (r: Vec<Vec<RawFWLogMsg>>)
        requires
            old(self).ch.wf(),
        ensures
            final(self).ch.wf(),
            final(self).ch.spec_count() == old(self).ch.spec_count(),
            final(self).ch.spec_slots() == old(self).ch.spec_slots(),
            final(self).ch.spec_state_va() == old(self).ch.spec_state_va(),
            final(self).ch.spec_ring_va() == old(self).ch.spec_ring_va(),
            r@.len() == 6,
            forall|i: int|
                0 <= i < 6 ==> (#[trigger] r@[i])@ == old(self).ch.spec_ring(i).pending(),
            forall|i: int| 0 <= i < 6 ==> (#[trigger] final(self).ch.spec_ring(i)).is_empty(),
    {
        let mut out: Vec<Vec<RawFWLogMsg>> = Vec::new();
        let mut i: usize = 0;
        while i < FWLogChannelState::SUB_CHANNELS
            invariant
                i <= 6,
                self.ch.wf(),
                self.ch.spec_count() == old(self).ch.spec_count(),
                self.ch.spec_slots() == old(self).ch.spec_slots(),
                self.ch.spec_state_va() == old(self).ch.spec_state_va(),
                self.ch.spec_ring_va() == old(self).ch.spec_ring_va(),
                out@.len() == i,
                forall|k: int|
                    0 <= k < i ==> (#[trigger] out@[k])@ == old(self).ch.spec_ring(k).pending(),
                forall|k: int| 0 <= k < i ==> (#[trigger] self.ch.spec_ring(k)).is_empty(),
                forall|k: int|
                    i <= k < 6 ==> (#[trigger] self.ch.spec_ring(k)) == old(self).ch.spec_ring(k),
            decreases 6 - i,
        {
            let msgs = self.ch.drain(i);
            out.push(msgs);
            i = i + 1;
        }
        out
    }
}

/// The channel on which the firmware writes its kernel trace.
pub struct KTraceChannel {
    /// The host's end.
    pub ch: RXChannel<ChannelState, RawKTraceMsg>,
}

impl KTraceChannel {
    /// The number of slots of the channel.
    pub const COUNT: usize = 0x200;

    /// Makes the channel, with `COUNT` slots and nothing in them.
    ///
    /// Fails as `RXChannel::creatable` says.
    pub fn new(alloc: &mut KernelAllocators) -> (r: Result<KTraceChannel, Error>)
        requires
            old(alloc).wf(),
        ensures
            final(alloc).follows(*old(alloc)),
            final(alloc).private == old(alloc).private,
            final(alloc).gpu == old(alloc).gpu,
            r is Err ==> final(alloc).same_as(*old(alloc)),
            match r {
                Ok(c) => {
                    &&& RXChannel::<ChannelState, RawKTraceMsg>::creatable(*old(alloc), 0x200)
                        is Ok
                    &&& c.ch.wf()
                    &&& final(alloc).shared.room() == old(alloc).shared.room() - RXChannel::<
                        ChannelState,
                        RawKTraceMsg,
                    >::need(0x200)
                    &&& c.ch.spec_count() == 0x200
                    &&& c.ch.spec_ring(0).is_empty()
                },
                Err(e) => RXChannel::<ChannelState, RawKTraceMsg>::creatable(*old(alloc), 0x200)
                    == Err::<(), Error>(e),
            },
    {
        match RXChannel::<ChannelState, RawKTraceMsg>::new(alloc, 0x200) {
            Ok(ch) => Ok(KTraceChannel { ch }),
            Err(e) => Err(e),
        }
    }

    /// Returns where the firmware finds the channel.
    pub fn to_raw(&self) -> (r: crate::fw::initdata::raw::ChannelRing<ChannelState, RawKTraceMsg>)
        requires
            self.ch.wf(),
        ensures
            r.state.spec_addr() == self.ch.spec_state_va(),
            r.ring.spec_addr() == self.ch.spec_ring_va(),
    {
        self.ch.to_raw()
    }

    /// Takes every pending trace message, oldest first, and leaves none
    /// pending.
    pub fn poll(&mut self) -> (r: Vec<RawKTraceMsg>)
        requires
            old(self).ch.wf(),
        ensures
            final(self).ch.wf(),
            final(self).ch.spec_count() == old(self).ch.spec_count(),
            final(self).ch.spec_slots() == old(self).ch.spec_slots(),
            final(self).ch.spec_state_va() == old(self).ch.spec_state_va(),
            final(self).ch.spec_ring_va() == old(self).ch.spec_ring_va(),
            r@ == old(self).ch.spec_ring(0).pending(),
            final(self).ch.spec_ring(0).is_empty(),
    {
        self.ch.drain(0)
    }
}

/// The tag of a statistics message: its first four bytes, lowest first.
pub open spec fn stats_tag(msg: RawStatsMsg) -> u32 {
    le_u32(msg@, 0)
}

/// A statistics message as the host has read it.
#[derive(Clone, Copy, Debug, PartialEq, Eq)]
pub enum StatsEvent {
    /// A message whose tag the host knows.
    Stats(RawStatsMsg),
    /// A message with a tag beyond those the host knows.
    Unknown(RawStatsMsg),
}

/// How a statistics message reads where `stats_max` is the last tag known.
pub open spec fn stats_event(msg: RawStatsMsg, stats_max: u32) -> StatsEvent {
    if stats_tag(msg) <= stats_max {
        StatsEvent::Stats(msg)
    } else {
        StatsEvent::Unknown(msg)
    }
}

/// The channel on which the firmware reports statistics.
pub struct StatsChannel {
    /// The host's end.
    pub ch: RXChannel<ChannelState, RawStatsMsg>,
    /// The last tag that this generation of the firmware uses.
    pub stats_max: u32,
}

impl StatsChannel {
    /// The number of slots of the channel.
    pub const COUNT: usize = 0x100;

    /// Makes the channel, with `COUNT` slots and nothing in them, for a
    /// firmware whose last statistics tag is `stats_max`.
    ///
    /// Fails as `RXChannel::creatable` says.
    pub fn new(alloc: &mut KernelAllocators, stats_max: u32) -> (r: Result<StatsChannel, Error>)
        requires
            old(alloc).wf(),
        ensures
            final(alloc).follows(*old(alloc)),
            final(alloc).private == old(alloc).private,
            final(alloc).gpu == old(alloc).gpu,
            r is Err ==> final(alloc).same_as(*old(alloc)),
            match r {
                Ok(c) => {
                    &&& RXChannel::<ChannelState, RawStatsMsg>::creatable(*old(alloc), 0x100) is Ok
                    &&& c.ch.wf()
                    &&& final(alloc).shared.room() == old(alloc).shared.room() - RXChannel::<
                        ChannelState,
                        RawStatsMsg,
                    >::need(0x100)
                    &&& c.ch.spec_count() == 0x100
                    &&& c.ch.spec_ring(0).is_empty()
                    &&& c.stats_max == stats_max
                },
                Err(e) => RXChannel::<ChannelState, RawStatsMsg>::creatable(*old(alloc), 0x100)
                    == Err::<(), Error>(e),
            },
    {
        match RXChannel::<ChannelState, RawStatsMsg>::new(alloc, 0x100) {
            Ok(ch) => Ok(StatsChannel { ch, stats_max }),
            Err(e) => Err(e),
        }
    }

    /// Returns where the firmware finds the channel.
    pub fn to_raw(&self) -> (r: crate::fw::initdata::raw::ChannelRing<ChannelState, RawStatsMsg>)
        requires
            self.ch.wf(),
        ensures
            r.state.spec_addr() == self.ch.spec_state_va(),
            r.ring.spec_addr() == self.ch.spec_ring_va(),
    {
        self.ch.to_raw()
    }

    /// Reads the tag of `msg`.
    pub fn tag(msg: &RawStatsMsg) -> (r: u32)
        ensures
            r == stats_tag(*msg),
    {
        get_u32(msg.deref().as_slice(), 0)
    }

    /// Takes every pending message, oldest first, and leaves none pending.
    /// Each is told apart by its tag: known up to `stats_max`, unknown
    /// beyond. An unknown message is handed on like the others.
    pub fn poll(&mut self) -> (r: Vec<StatsEvent>)
        requires
            old(self).ch.wf(),
        ensures
            final(self).ch.wf(),
            final(self).stats_max == old(self).stats_max,
            final(self).ch.spec_count() == old(self).ch.spec_count(),
            final(self).ch.spec_slots() == old(self).ch.spec_slots(),
            final(self).ch.spec_state_va() == old(self).ch.spec_state_va(),
            final(self).ch.spec_ring_va() == old(self).ch.spec_ring_va(),
            r@.len() == old(self).ch.spec_ring(0).pending().len(),
            forall|i: int|
                0 <= i < r@.len() ==> #[trigger] r@[i] == stats_event(
                    old(self).ch.spec_ring(0).pending()[i],
                    old(self).stats_max,
                ),
            final(self).ch.spec_ring(0).is_empty(),
    {
        let msgs = self.ch.drain(0);
        let mut out: Vec<StatsEvent> = Vec::new();
        let mut i: usize = 0;
        while i < msgs.len()
            invariant
                i <= msgs@.len(),
                out@.len() == i,
                forall|k: int|
                    0 <= k < i ==> #[trigger] out@[k] == stats_event(msgs@[k], self.stats_max),
            decreases msgs@.len() - i,
        {
            let msg = msgs[i];
            let event = if Self::tag(&msg) <= self.stats_max {
                StatsEvent::Stats(msg)
            } else {
                StatsEvent::Unknown(msg)
            };
            out.push(event);
            i = i + 1;
        }
        out
    }
}

} // verus!
