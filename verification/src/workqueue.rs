//! Work queues: rings of commands that the host submits and the firmware
//! runs.

use vstd::prelude::*;
use vstd::layout::{align_of, size_of};
use crate::allocator::{Allocation, SimpleAllocation};
use crate::channel::{next_index, PipeChannel};
use crate::error::Error;
use crate::fw::channels::{PipeMsg, PipeType};
use crate::fw::event::NotifierList;
use crate::fw::types::{Pad, U64};
use crate::fw::workqueue::raw::{spec_priority, NUM_PRIORITIES};
use crate::fw::workqueue::{Command, GPUContextData, QueueInfo, RingState};
use crate::gpu::KernelAllocators;
use crate::mmu::{lemma_page_ceil, page_ceil};
use crate::object::{GPUObject, GPUWeakPointer};
use crate::ring::{lemma_ring_recv, lemma_ring_send, Ring};

verus! {

/// A work queue: the host's end of its ring, and what the firmware knows of
/// the queue.
pub struct WorkQueue {
    info: GPUObject<QueueInfo, SimpleAllocation<QueueInfo>>,
    pipe_type: PipeType,
    size: u32,
    wptr: u32,
    id: u64,
}

impl WorkQueue {
    /// The number of slots of the ring.
    pub closed spec fn spec_size(&self) -> u32 {
        self.size
    }

    /// The host's write index.
    pub closed spec fn spec_wptr(&self) -> u32 {
        self.wptr
    }

    /// The pipeline that runs the queue's work.
    pub closed spec fn spec_pipe_type(&self) -> PipeType {
        self.pipe_type
    }

    /// The number that names the queue.
    pub closed spec fn spec_id(&self) -> u64 {
        self.id
    }

    /// What the slots hold: addresses of commands.
    pub closed spec fn spec_slots(&self) -> Seq<u64> {
        self.info.spec_inner().ring@
    }

    /// The pointer cells of the ring.
    pub closed spec fn spec_state(&self) -> crate::fw::workqueue::raw::RingState {
        self.info.spec_inner().state.spec_raw()
    }

    /// What the firmware knows of the queue.
    pub closed spec fn spec_info(&self) -> crate::fw::workqueue::raw::QueueInfo {
        self.info.spec_raw()
    }

    /// The number of commands submitted and not yet completed.
    pub open spec fn spec_pending(&self) -> u32 {
        self.spec_info().pending
    }

    /// The GPU virtual address of what the firmware knows of the queue.
    pub closed spec fn spec_info_va(&self) -> u64 {
        self.info.spec_gpu_va()
    }

    /// The GPU virtual address of the pointer cells.
    pub closed spec fn spec_state_va(&self) -> u64 {
        self.info.spec_inner().state.spec_gpu_va()
    }

    /// The GPU virtual address of the first slot.
    pub closed spec fn spec_ring_va(&self) -> u64 {
        self.info.spec_inner().ring.spec_gpu_va()
    }

    /// The parts are well formed; there is a slot; every index names one;
    /// the pointer cells show the host's write index and the size; and what
    /// the firmware knows of the queue points to the queue's own parts.
    pub closed spec fn wf(&self) -> bool {
        let inner = self.info.spec_inner();
        let raw = self.info.spec_raw();
        &&& self.info.wf()
        &&& inner.state.wf()
        &&& inner.ring.wf()
        &&& inner.gpu_buf.wf()
        &&& inner.gpu_context.wf()
        &&& self.size > 0
        &&& inner.ring@.len() == self.size
        &&& self.wptr < self.size
        &&& inner.state.spec_raw().cpu_wptr == self.wptr
        &&& inner.state.spec_raw().gpu_rptr < self.size
        &&& inner.state.spec_raw().rb_size == self.size
        &&& raw.state.spec_addr() == inner.state.spec_gpu_va()
        &&& raw.ring.spec_addr() == inner.ring.spec_gpu_va()
        &&& raw.gpu_buf.spec_addr() == inner.gpu_buf.spec_gpu_va()
        &&& raw.gpu_context.spec_addr() == inner.gpu_context.spec_gpu_va()
        &&& raw.notifier_list.spec_addr() == inner.notifier_list.spec_addr()
    }

    /// The queue as a ring: the host writes, the firmware reads.
    pub open spec fn spec_ring(&self) -> Ring<u64> {
        Ring {
            slots: self.spec_slots(),
            rptr: self.spec_state().gpu_rptr as int,
            wptr: self.spec_wptr() as int,
        }
    }

    /// A well-formed queue is a well-formed ring of `spec_size()` slots
    /// whose pointer cells show the host's write index, and what the
    /// firmware knows of it points to its pointer cells and its slots.
    pub proof fn lemma_wf(&self)
        requires
            self.wf(),
        ensures
            self.spec_ring().wf(),
            self.spec_ring().count() == self.spec_size(),
            self.spec_size() > 0,
            self.spec_state().cpu_wptr == self.spec_wptr(),
            self.spec_state().rb_size == self.spec_size(),
            self.spec_info().state.spec_addr() == self.spec_state_va(),
            self.spec_info().ring.spec_addr() == self.spec_ring_va(),
            self.spec_info_va() != 0,
    {
    }

    /// How `new` ends: `InvalidArgument` where there is no such priority or
    /// `size` is 0; else as the allocations end, in this order: the pointer
    /// cells and then the slots in shared memory, the firmware's buffer in
    /// private memory, the context data in shared memory, and what the
    /// firmware knows of the queue in private memory. `NoMemory` where the
    /// size of the slots is no `usize`.
    pub open spec fn creatable(
        alloc: KernelAllocators,
        priority: usize,
        size: u32,
        gpu_buf_size: usize,
    ) -> Result<(), Error> {
        let state = page_ceil(size_of::<crate::fw::workqueue::raw::RingState>() as int);
        let ring = page_ceil(size * size_of::<u64>());
        let buf = page_ceil(gpu_buf_size * size_of::<u8>());
        if priority >= NUM_PRIORITIES || size == 0 {
            Err(Error::InvalidArgument)
        } else if alloc.shared.fits(
            size_of::<crate::fw::workqueue::raw::RingState>() as int,
            alloc.shared.align_for(align_of::<crate::fw::workqueue::raw::RingState>()),
            0,
        ) is Err {
            alloc.shared.fits(
                size_of::<crate::fw::workqueue::raw::RingState>() as int,
                alloc.shared.align_for(align_of::<crate::fw::workqueue::raw::RingState>()),
                0,
            )
        } else if size * size_of::<u64>() > usize::MAX {
            Err(Error::NoMemory)
        } else if alloc.shared.fits(
            size * size_of::<u64>(),
            alloc.shared.align_for(align_of::<u64>()),
            state,
        ) is Err {
            alloc.shared.fits(size * size_of::<u64>(), alloc.shared.align_for(align_of::<u64>()), state)
        } else if gpu_buf_size * size_of::<u8>() > usize::MAX {
            Err(Error::NoMemory)
        } else if alloc.private.fits(
            gpu_buf_size * size_of::<u8>(),
            alloc.private.align_for(align_of::<u8>()),
            0,
        ) is Err {
            alloc.private.fits(
                gpu_buf_size * size_of::<u8>(),
                alloc.private.align_for(align_of::<u8>()),
                0,
            )
        } else if alloc.shared.fits(
            size_of::<crate::fw::workqueue::raw::GPUContextData>() as int,
            alloc.shared.align_for(align_of::<crate::fw::workqueue::raw::GPUContextData>()),
            state + ring,
        ) is Err {
            alloc.shared.fits(
                size_of::<crate::fw::workqueue::raw::GPUContextData>() as int,
                alloc.shared.align_for(align_of::<crate::fw::workqueue::raw::GPUContextData>()),
                state + ring,
            )
        } else {
            alloc.private.fits(
                size_of::<crate::fw::workqueue::raw::QueueInfo>() as int,
                alloc.private.align_for(align_of::<crate::fw::workqueue::raw::QueueInfo>()),
                buf,
            )
        }
    }

    /// Makes an empty work queue of `size` slots for the pipeline
    /// `pipe_type`, at the priority with the number `priority`, named `id`,
    /// with a firmware buffer of `gpu_buf_size` bytes.
    ///
    /// The queue has no command pending and no event slot. Fails as
    /// `creatable` says, and then gives back what it took from the
    /// allocators.
    pub fn new(
        alloc: &mut KernelAllocators,
        pipe_type: PipeType,
        priority: usize,
        size: u32,
        gpu_buf_size: usize,
        notifier_list: GPUWeakPointer<NotifierList>,
        id: u64,
    ) -> (r: Result<WorkQueue, Error>)
        requires
            old(alloc).wf(),
        ensures
            final(alloc).follows(*old(alloc)),
            final(alloc).gpu == old(alloc).gpu,
            r is Err ==> final(alloc).same_as(*old(alloc)),
            match r {
                Ok(q) => {
                    &&& Self::creatable(*old(alloc), priority, size, gpu_buf_size) is Ok
                    &&& q.wf()
                    &&& q.spec_size() == size
                    &&& q.spec_pipe_type() == pipe_type
                    &&& q.spec_id() == id
                    &&& q.spec_ring().is_empty()
                    &&& q.spec_wptr() == 0
                    &&& q.spec_pending() == 0
                    &&& q.spec_info().priority == spec_priority(priority as int)
                    &&& q.spec_info().event_id == -1
                    &&& q.spec_info().busy == 0
                    &&& q.spec_info().uuid == id as u32
                    &&& q.spec_info().notifier_list.spec_addr() == notifier_list.spec_addr()
                    &&& q.spec_state().gpu_doneptr == 0
                },
                Err(e) => Self::creatable(*old(alloc), priority, size, gpu_buf_size) == Err::<
                    (),
                    Error,
                >(e),
            },
    {
        let prio = match crate::fw::workqueue::raw::priority(priority) {
            Some(p) => p,
            None => {
                return Err(Error::InvalidArgument);
            },
        };
        if size == 0 {
            return Err(Error::InvalidArgument);
        }
        proof {
            lemma_page_ceil(size_of::<crate::fw::workqueue::raw::RingState>() as int);
            lemma_page_ceil(size * size_of::<u64>());
            lemma_page_ceil(gpu_buf_size * size_of::<u8>());
        }
        let marks = alloc.mark();
        let ghost before = *alloc;
        let cells = |_inner: &RingState| -> (r: crate::fw::workqueue::raw::RingState)
            ensures
                r.gpu_doneptr == 0,
                r.gpu_rptr == 0,
                r.cpu_wptr == 0,
                r.rb_size == size,
            {
                let mut raw = crate::fw::workqueue::raw::RingState::default();
                raw.rb_size = size;
                raw
            };
        let state = match alloc.shared.new_object(RingState {  }, cells) {
            Ok(o) => o,
            Err(e) => {
                proof {
                    KernelAllocators::lemma_marks(before, *alloc, marks);
                }
                alloc.rewind(marks);
                return Err(e);
            },
        };
        let ring = match alloc.shared.new_array::<u64>(size as usize) {
            Ok(a) => a,
            Err(e) => {
                proof {
                    KernelAllocators::lemma_marks(before, *alloc, marks);
                }
                alloc.rewind(marks);
                return Err(e);
            },
        };
        let gpu_buf = match alloc.private.new_array::<u8>(gpu_buf_size) {
            Ok(a) => a,
            Err(e) => {
                proof {
                    KernelAllocators::lemma_marks(before, *alloc, marks);
                }
                alloc.rewind(marks);
                return Err(e);
            },
        };
        let gpu_context = match alloc.shared.new_default_object::<GPUContextData>() {
            Ok(o) => o,
            Err(e) => {
                proof {
                    KernelAllocators::lemma_marks(before, *alloc, marks);
                }
                alloc.rewind(marks);
                return Err(e);
            },
        };
        let inner = QueueInfo { state, ring, notifier_list, gpu_buf, gpu_context };
        let uuid = (id & 0xffff_ffff) as u32;
        assert(id & 0xffff_ffff == id as u32) by (bit_vector);
        let fill = |inner: &QueueInfo| -> (r: crate::fw::workqueue::raw::QueueInfo)
            requires
                inner.ring.wf(),
                inner.gpu_buf.wf(),
            ensures
                r.state.spec_addr() == inner.state.spec_gpu_va(),
                r.ring.spec_addr() == inner.ring.spec_gpu_va(),
                r.notifier_list.spec_addr() == inner.notifier_list.spec_addr(),
                r.gpu_buf.spec_addr() == inner.gpu_buf.spec_gpu_va(),
                r.gpu_context.spec_addr() == inner.gpu_context.spec_gpu_va(),
                r.pending == 0,
                r.priority == prio,
                r.event_id == -1,
                r.busy == 0,
                r.uuid == uuid,
            {
                crate::fw::workqueue::raw::QueueInfo {
                    state: inner.state.weak_pointer(),
                    ring: inner.ring.weak_pointer(),
                    notifier_list: inner.notifier_list,
                    gpu_buf: inner.gpu_buf.weak_pointer(),
                    gpu_rptr1: 0,
                    gpu_rptr2: 0,
                    gpu_rptr3: 0,
                    event_id: -1,
                    priority: prio,
                    unk_4c: -1,
                    uuid,
                    unk_54: -1,
                    unk_58: U64(0),
                    busy: 0,
                    __pad: Pad::default(),
                    unk_84_state: 0,
                    unk_88: 0,
                    unk_8c: 0,
                    unk_90: 0,
                    unk_94: 0,
                    pending: 0,
                    unk_9c: 0,
                    gpu_context: inner.gpu_context.weak_pointer(),
                    unk_a8: U64(0),
                }
            };
        let info = match alloc.private.new_object(inner, fill) {
            Ok(o) => o,
            Err(e) => {
                proof {
                    KernelAllocators::lemma_marks(before, *alloc, marks);
                }
                alloc.rewind(marks);
                return Err(e);
            },
        };
        Ok(WorkQueue { info, pipe_type, size, wptr: 0, id })
    }

    /// Returns the number of slots of the ring.
    pub fn size(&self) -> (r: u32)
        ensures
            r == self.spec_size(),
    {
        self.size
    }

    /// Returns the pipeline that runs the queue's work.
    pub fn pipe_type(&self) -> (r: PipeType)
        ensures
            r == self.spec_pipe_type(),
    {
        self.pipe_type
    }

    /// Returns the number that names the queue.
    pub fn id(&self) -> (r: u64)
        ensures
            r == self.spec_id(),
    {
        self.id
    }

    /// Returns where the firmware finds what it knows of the queue.
    pub fn info_pointer(&self) -> (r: GPUWeakPointer<QueueInfo>)
        ensures
            r.spec_addr() == self.spec_info_va(),
    {
        self.info.weak_pointer()
    }

    /// Returns the number of commands submitted and not yet completed.
    pub fn pending(&self) -> (r: u32)
        ensures
            r == self.spec_pending(),
    {
        let read = |raw: &crate::fw::workqueue::raw::QueueInfo, _inner: &QueueInfo| -> (r: u32)
            ensures
                r == raw.pending,
            {
                raw.pending
            };
        self.info.with(read)
    }

    /// Submits `command`: puts its GPU address into the next slot of the
    /// ring and counts it as pending.
    ///
    /// With the ring full, or with as many commands pending as a `u32`
    /// counts, nothing changes and the answer is `Busy`: the caller waits
    /// for the firmware and tries again. Else the address goes into the slot
    /// at the write index, the write index moves on by one, in the host's
    /// copy and in the pointer cells, and one more command is pending.
    /// Afterwards the firmware is to be told by a doorbell.
    pub fn submit<C: Command, U: Allocation<C>>(&mut self, command: &GPUObject<C, U>) -> (r:
        Result<(), Error>)
        requires
            old(self).wf(),
        ensures
            final(self).wf(),
            final(self).spec_size() == old(self).spec_size(),
            final(self).spec_pipe_type() == old(self).spec_pipe_type(),
            final(self).spec_id() == old(self).spec_id(),
            final(self).spec_info_va() == old(self).spec_info_va(),
            final(self).spec_state_va() == old(self).spec_state_va(),
            final(self).spec_ring_va() == old(self).spec_ring_va(),
            final(self).spec_state().gpu_doneptr == old(self).spec_state().gpu_doneptr,
            match r {
                Err(e) => {
                    &&& e == Error::Busy
                    &&& old(self).spec_ring().is_full() || old(self).spec_pending() == u32::MAX
                    &&& final(self).spec_ring() == old(self).spec_ring()
                    &&& final(self).spec_pending() == old(self).spec_pending()
                },
                Ok(_) => {
                    &&& !old(self).spec_ring().is_full()
                    &&& final(self).spec_ring() == old(self).spec_ring().send(
                        command.spec_gpu_va(),
                    )
                    &&& final(self).spec_ring().pending() == old(self).spec_ring().pending().push(
                        command.spec_gpu_va(),
                    )
                    &&& final(self).spec_pending() == old(self).spec_pending() + 1
                },
            },
    {
        let next_wptr = next_index(self.wptr, self.size);
        let read = |raw: &crate::fw::workqueue::raw::QueueInfo, inner: &QueueInfo| -> (r: (
            u32,
            u32,
        ))
            ensures
                r.0 == inner.state.spec_raw().gpu_rptr,
                r.1 == raw.pending,
            {
                let cell = |sraw: &crate::fw::workqueue::raw::RingState, _s: &RingState| -> (r: u32)
                    ensures
                        r == sraw.gpu_rptr,
                    {
                        sraw.gpu_rptr
                    };
                (inner.state.with(cell), raw.pending)
            };
        let (rptr, pending) = self.info.with(read);
        if next_wptr == rptr || pending == u32::MAX {
            return Err(Error::Busy);
        }
        proof {
            lemma_ring_send(old(self).spec_ring(), command.spec_gpu_va());
        }
        let va = command.gpu_va();
        let wptr = self.wptr;
        let write = |raw: &mut crate::fw::workqueue::raw::QueueInfo, inner: &mut QueueInfo|
            requires
                wptr < old(inner).ring@.len(),
                old(raw).pending < u32::MAX,
            ensures
                final(raw).pending == old(raw).pending + 1,
                final(raw).state == old(raw).state,
                final(raw).ring == old(raw).ring,
                final(raw).gpu_buf == old(raw).gpu_buf,
                final(raw).gpu_context == old(raw).gpu_context,
                final(raw).notifier_list == old(raw).notifier_list,
                final(inner).ring@ == old(inner).ring@.update(wptr as int, va),
                final(inner).ring.spec_alloc() == old(inner).ring.spec_alloc(),
                final(inner).ring.spec_gpu_va() == old(inner).ring.spec_gpu_va(),
                final(inner).state.spec_alloc() == old(inner).state.spec_alloc(),
                final(inner).state.spec_gpu_va() == old(inner).state.spec_gpu_va(),
                final(inner).state.spec_raw().cpu_wptr == next_wptr,
                final(inner).state.spec_raw().gpu_rptr == old(inner).state.spec_raw().gpu_rptr,
                final(inner).state.spec_raw().gpu_doneptr == old(
                    inner,
                ).state.spec_raw().gpu_doneptr,
                final(inner).state.spec_raw().rb_size == old(inner).state.spec_raw().rb_size,
                final(inner).gpu_buf == old(inner).gpu_buf,
                final(inner).gpu_context == old(inner).gpu_context,
                final(inner).notifier_list == old(inner).notifier_list,
            {
                let slot = inner.ring.index_mut(wptr as usize);
                *slot = va;
                let publish = |sraw: &mut crate::fw::workqueue::raw::RingState, _s: &mut RingState|
                    ensures
                        final(sraw).cpu_wptr == next_wptr,
                        final(sraw).gpu_rptr == old(sraw).gpu_rptr,
                        final(sraw).gpu_doneptr == old(sraw).gpu_doneptr,
                        final(sraw).rb_size == old(sraw).rb_size,
                    {
                        sraw.cpu_wptr = next_wptr;
                    };
                inner.state.with_mut(publish);
                raw.pending = raw.pending + 1;
            };
        self.info.with_mut(write);
        self.wptr = next_wptr;
        Ok(())
    }

    /// Takes note that the firmware has acknowledged the completion of one
    /// command: one command less is pending. Nothing else changes.
    ///
    /// With no command pending nothing changes and the answer is
    /// `InvalidArgument`: the firmware has acknowledged what was not
    /// submitted.
    pub fn complete(&mut self) -> (r: Result<(), Error>)
        requires
            old(self).wf(),
        ensures
            final(self).wf(),
            final(self).spec_size() == old(self).spec_size(),
            final(self).spec_pipe_type() == old(self).spec_pipe_type(),
            final(self).spec_id() == old(self).spec_id(),
            final(self).spec_info_va() == old(self).spec_info_va(),
            final(self).spec_state_va() == old(self).spec_state_va(),
            final(self).spec_ring_va() == old(self).spec_ring_va(),
            final(self).spec_ring() == old(self).spec_ring(),
            final(self).spec_state().gpu_doneptr == old(self).spec_state().gpu_doneptr,
            match r {
                Err(e) => {
                    &&& e == Error::InvalidArgument
                    &&& old(self).spec_pending() == 0
                    &&& final(self).spec_pending() == 0
                },
                Ok(_) => {
                    &&& old(self).spec_pending() > 0
                    &&& final(self).spec_pending() == old(self).spec_pending() - 1
                },
            },
    {
        if self.pending() == 0 {
            return Err(Error::InvalidArgument);
        }
        let count = |raw: &mut crate::fw::workqueue::raw::QueueInfo, _inner: &mut QueueInfo|
            requires
                old(raw).pending > 0,
            ensures
                final(raw).pending == old(raw).pending - 1,
                final(raw).state == old(raw).state,
                final(raw).ring == old(raw).ring,
                final(raw).gpu_buf == old(raw).gpu_buf,
                final(raw).gpu_context == old(raw).gpu_context,
                final(raw).notifier_list == old(raw).notifier_list,
                *final(_inner) == *old(_inner),
            {
                raw.pending = raw.pending - 1;
            };
        self.info.with_mut(count);
        Ok(())
    }

    /// What the firmware does to take the next command.
    ///
    /// With nothing in the ring the queue stays as it is. Else the address
    /// of the oldest command in the ring is returned and the read index in
    /// the pointer cells moves on by one; the slots, the write index and the
    /// number of pending commands stay: a command that is taken is not yet
    /// completed.
    pub fn firmware_take(&mut self) -> (r: Option<u64>)
        requires
            old(self).wf(),
        ensures
            final(self).wf(),
            final(self).spec_size() == old(self).spec_size(),
            final(self).spec_pipe_type() == old(self).spec_pipe_type(),
            final(self).spec_id() == old(self).spec_id(),
            final(self).spec_info_va() == old(self).spec_info_va(),
            final(self).spec_state_va() == old(self).spec_state_va(),
            final(self).spec_ring_va() == old(self).spec_ring_va(),
            final(self).spec_pending() == old(self).spec_pending(),
            final(self).spec_slots() == old(self).spec_slots(),
            final(self).spec_wptr() == old(self).spec_wptr(),
            match r {
                None => {
                    &&& old(self).spec_ring().is_empty()
                    &&& final(self).spec_ring() == old(self).spec_ring()
                },
                Some(va) => {
                    &&& !old(self).spec_ring().is_empty()
                    &&& va == old(self).spec_ring().front()
                    &&& va == old(self).spec_ring().pending()[0]
                    &&& final(self).spec_ring() == old(self).spec_ring().recv()
                    &&& final(self).spec_ring().pending() == old(
                        self,
                    ).spec_ring().pending().drop_first()
                },
            },
    {
        let read = |raw: &crate::fw::workqueue::raw::QueueInfo, inner: &QueueInfo| -> (r: u32)
            ensures
                r == inner.state.spec_raw().gpu_rptr,
            {
                let cell = |sraw: &crate::fw::workqueue::raw::RingState, _s: &RingState| -> (r: u32)
                    ensures
                        r == sraw.gpu_rptr,
                    {
                        sraw.gpu_rptr
                    };
                inner.state.with(cell)
            };
        let rptr = self.info.with(read);
        if rptr == self.wptr {
            return None;
        }
        proof {
            lemma_ring_recv(old(self).spec_ring());
        }
        let next = next_index(rptr, self.size);
        let take = |raw: &mut crate::fw::workqueue::raw::QueueInfo, inner: &mut QueueInfo| -> (r:
            u64)
            requires
                rptr < old(inner).ring@.len(),
            ensures
                r == old(inner).ring@[rptr as int],
                *final(raw) == *old(raw),
                final(inner).ring == old(inner).ring,
                final(inner).state.spec_alloc() == old(inner).state.spec_alloc(),
                final(inner).state.spec_gpu_va() == old(inner).state.spec_gpu_va(),
                final(inner).state.spec_raw().gpu_rptr == next,
                final(inner).state.spec_raw().cpu_wptr == old(inner).state.spec_raw().cpu_wptr,
                final(inner).state.spec_raw().gpu_doneptr == old(
                    inner,
                ).state.spec_raw().gpu_doneptr,
                final(inner).state.spec_raw().rb_size == old(inner).state.spec_raw().rb_size,
                final(inner).gpu_buf == old(inner).gpu_buf,
                final(inner).gpu_context == old(inner).gpu_context,
                final(inner).notifier_list == old(inner).notifier_list,
            {
                let va = *inner.ring.index(rptr as usize);
                let publish = |sraw: &mut crate::fw::workqueue::raw::RingState, _s: &mut RingState|
                    ensures
                        final(sraw).gpu_rptr == next,
                        final(sraw).cpu_wptr == old(sraw).cpu_wptr,
                        final(sraw).gpu_doneptr == old(sraw).gpu_doneptr,
                        final(sraw).rb_size == old(sraw).rb_size,
                    {
                        sraw.gpu_rptr = next;
                    };
                inner.state.with_mut(publish);
                va
            };
        let va = self.info.with_mut(take);
        Some(va)
    }
}

/// Work that has been submitted to a queue and that the firmware is to be
/// told of: the pipeline of the queue, and the message that tells it.
pub struct WorkQueueBatch {
    pipe_type: PipeType,
    msg: PipeMsg,
}

impl WorkQueueBatch {
    /// The pipeline that runs the work.
    pub closed spec fn spec_pipe_type(&self) -> PipeType {
        self.pipe_type
    }

    /// The message that tells the firmware of the work.
    pub closed spec fn spec_msg(&self) -> PipeMsg {
        self.msg
    }

    /// Makes the batch for work on `queue` that `msg` tells of.
    pub fn new(queue: &WorkQueue, msg: PipeMsg) -> (r: WorkQueueBatch)
        ensures
            r.spec_pipe_type() == queue.spec_pipe_type(),
            r.spec_msg() == msg,
    {
        WorkQueueBatch { pipe_type: queue.pipe_type(), msg }
    }

    /// Returns the pipeline that runs the work.
    pub fn pipe_type(&self) -> (r: PipeType)
        ensures
            r == self.spec_pipe_type(),
    {
        self.pipe_type
    }

    /// Sends the message of the batch on `pipe`, as `PipeChannel::send`
    /// does: with the ring full nothing changes and the answer is `Busy`.
    pub fn submit(&self, pipe: &mut PipeChannel) -> (r: Result<(), Error>)
        requires
            old(pipe).ch.wf(),
        ensures
            final(pipe).ch.wf(),
            final(pipe).ch.spec_count() == old(pipe).ch.spec_count(),
            final(pipe).ch.spec_state_va() == old(pipe).ch.spec_state_va(),
            final(pipe).ch.spec_ring_va() == old(pipe).ch.spec_ring_va(),
            match r {
                Err(e) => {
                    &&& e == Error::Busy
                    &&& old(pipe).ch.spec_ring().is_full()
                    &&& final(pipe).ch.spec_ring() == old(pipe).ch.spec_ring()
                },
                Ok(_) => {
                    &&& !old(pipe).ch.spec_ring().is_full()
                    &&& final(pipe).ch.spec_ring() == old(pipe).ch.spec_ring().send(
                        self.spec_msg(),
                    )
                    &&& final(pipe).ch.spec_ring().pending() == old(
                        pipe,
                    ).ch.spec_ring().pending().push(self.spec_msg())
                },
            },
    {
        pipe.send(&self.msg)
    }

    /// Sends the message of the batch on `pipe`, waiting while the ring is
    /// full, as `TXChannel::put_waiting` does with the same `limit` and
    /// `wait`.
    pub fn submit_waiting<W: Fn(u64) -> u32>(
        &self,
        pipe: &mut PipeChannel,
        limit: u32,
        wait: &W,
    ) -> (r: Result<(), Error>)
        requires
            old(pipe).ch.wf(),
            forall|millis: u64| #[trigger] wait.requires((millis,)),
        ensures
            final(pipe).ch.wf(),
            final(pipe).ch.spec_count() == old(pipe).ch.spec_count(),
            final(pipe).ch.spec_state_va() == old(pipe).ch.spec_state_va(),
            final(pipe).ch.spec_ring_va() == old(pipe).ch.spec_ring_va(),
            !old(pipe).ch.spec_ring().is_full() ==> r is Ok && final(pipe).ch.spec_ring() == old(
                pipe,
            ).ch.spec_ring().send(self.spec_msg()),
            old(pipe).ch.spec_ring().is_full() && limit == 0 ==> r == Err::<(), Error>(
                Error::TimedOut,
            ) && final(pipe).ch.spec_ring() == old(pipe).ch.spec_ring(),
            old(pipe).ch.spec_ring().is_full() && limit > 0 && old(pipe).ch.drains(wait) ==> r
                is Ok,
            match r {
                Ok(_) => {
                    &&& final(pipe).ch.spec_ring().pending().len() > 0
                    &&& final(pipe).ch.spec_ring().pending().last() == self.spec_msg()
                },
                Err(e) => {
                    ||| e == Error::TimedOut && final(pipe).ch.spec_ring().is_full()
                    ||| e == Error::InvalidArgument && exists|millis: u64, seen: u32|
                        {
                            &&& #[trigger] wait.ensures((millis,), seen)
                            &&& !final(pipe).ch.spec_ring().reaches(seen as int)
                        }
                },
            },
    {
        pipe.ch.put_waiting(&self.msg, limit, wait)
    }
}

} // verus!
