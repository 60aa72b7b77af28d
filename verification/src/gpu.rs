//! The GPU manager: what the host keeps for one GPU and its firmware, and
//! what it sends to the firmware and hears from it.

use vstd::prelude::*;
use vstd::arithmetic::power2::is_pow2;
use vstd::layout::{align_of, size_of};
use crate::allocator::{layout_of, Mark, Region, SimpleAllocation, SimpleAllocator};
use crate::channel::{RXChannel, TXChannel};
use crate::fw::channels::{ChannelState, FWLogChannelState, PipeMsg, RawStatsMsg};
use crate::channel::{
    DeviceControlChannel, EventChannel, FWLogChannel, KTraceChannel, PipeChannel, StatsChannel,
    StatsEvent, stats_event,
};
use crate::error::Error;
use crate::event::{Event, EventManager, Token};
use crate::slotalloc::SlotAllocator;
use crate::fw::channels::{
    DeviceControlMsg, PipeType, RawEventMsg, RawFWLogMsg, RawKTraceMsg,
};
use crate::fw::initdata::{HwDataB, InitData, RuntimePointers, NUM_IO_MAPPINGS};
use crate::gem::{new_object, ObjectRef, VMap};
use crate::hw::{HWConfig, IOMapping};
use crate::mmu::{
    lemma_page_ceil, lemma_page_floor, page_align_down, page_align_up, page_ceil, page_floor,
    Mapping, UAT_PGMSK, UAT_PGSZ,
};
use crate::object::GPUObject;
use crate::workqueue::WorkQueueBatch;

verus! {

/// The endpoint of the firmware itself.
pub const EP_FIRMWARE: u8 = 0x20;

/// The endpoint of the doorbells.
pub const EP_DOORBELL: u8 = 0x21;

/// Tells the firmware where its init data is.
pub const MSG_INIT: u64 = 0x0081_0000_0000_0000;

/// The bits of the init message that hold the address of the init data.
pub const INIT_DATA_MASK: u64 = 0x0000_0fff_ffff_ffff;

/// Rings a doorbell of a channel on which the host sends.
pub const MSG_TX_DOORBELL: u64 = 0x0083_0000_0000_0000;

/// Tells the firmware of a message on the firmware control channel.
pub const MSG_FWCTL: u64 = 0x0084_0000_0000_0000;

/// Tells the firmware to halt.
pub const MSG_HALT: u64 = 0x0085_0000_0000_0000;

/// The firmware's doorbell: it has sent on some channel.
pub const MSG_RX_DOORBELL: u64 = 0x0042_0000_0000_0000;

/// The doorbell that wakes the firmware.
pub const DOORBELL_KICKFW: u64 = 0x10;

/// The doorbell of the device control channel.
pub const DOORBELL_DEVCTRL: u64 = 0x11;

/// The number of sets of pipeline channels.
pub const NUM_PIPES: usize = 4;

/// The least alignment of every allocation of the manager.
pub const MIN_ALIGN: usize = 0x20;

/// The allocators of the host, by who may see the memory.
pub struct KernelAllocators {
    /// Memory that only the firmware reads besides the host.
    pub private: SimpleAllocator,
    /// Memory that the firmware reads and writes.
    pub shared: SimpleAllocator,
    /// Memory that the GPU reaches as well.
    pub gpu: SimpleAllocator,
}

/// The kinds of memory that the host allocates, by who may see it.
#[derive(Clone, Copy, Debug, PartialEq, Eq, Structural)]
pub enum AllocatorKind {
    /// Memory that only the firmware reads besides the host.
    Private,
    /// Memory that the firmware reads and writes.
    Shared,
    /// Memory that the GPU reaches as well.
    Gpu,
}

/// How much each of the host's allocators had handed out at some moment.
#[derive(Clone, Copy, Debug, PartialEq, Eq, Structural)]
pub struct Marks {
    /// Of private memory.
    pub private: Mark,
    /// Of shared memory.
    pub shared: Mark,
    /// Of GPU memory.
    pub gpu: Mark,
}

impl KernelAllocators {
    /// Each allocator is well formed.
    pub open spec fn wf(&self) -> bool {
        self.private.wf() && self.shared.wf() && self.gpu.wf()
    }

    /// Whether `self` has handed out exactly what `pre` has, from the same
    /// regions at the same least alignments.
    pub open spec fn same_as(&self, pre: KernelAllocators) -> bool {
        &&& self.follows(pre)
        &&& self.private.spec_used() == pre.private.spec_used()
        &&& self.shared.spec_used() == pre.shared.spec_used()
        &&& self.gpu.spec_used() == pre.gpu.spec_used()
    }

    /// Whether `marks` were taken of `self`.
    pub open spec fn marked(&self, marks: Marks) -> bool {
        &&& marks.private.spec_used() == self.private.spec_used()
        &&& marks.shared.spec_used() == self.shared.spec_used()
        &&& marks.gpu.spec_used() == self.gpu.spec_used()
    }

    /// The allocator of memory of the kind `kind`.
    pub open spec fn of(&self, kind: AllocatorKind) -> SimpleAllocator {
        match kind {
            AllocatorKind::Private => self.private,
            AllocatorKind::Shared => self.shared,
            AllocatorKind::Gpu => self.gpu,
        }
    }

    /// Returns the allocator of memory of the kind `kind`. The other two
    /// stay as they are.
    pub fn allocator(&mut self, kind: AllocatorKind) -> (r: &mut SimpleAllocator)
        ensures
            *r == old(self).of(kind),
            final(self).of(kind) == *final(r),
            forall|other: AllocatorKind|
                other != kind ==> #[trigger] final(self).of(other) == old(self).of(other),
    {
        match kind {
            AllocatorKind::Private => &mut self.private,
            AllocatorKind::Shared => &mut self.shared,
            AllocatorKind::Gpu => &mut self.gpu,
        }
    }

    /// Returns how much each allocator has handed out now.
    pub fn mark(&self) -> (r: Marks)
        ensures
            self.marked(r),
    {
        Marks { private: self.private.mark(), shared: self.shared.mark(), gpu: self.gpu.mark() }
    }

    /// Whether `marks` can have been taken of these allocators at an earlier
    /// moment: no mark lies ahead of what is handed out, and each lies on a
    /// page boundary.
    pub open spec fn reaches(&self, marks: Marks) -> bool {
        &&& marks.private.spec_used() <= self.private.spec_used()
        &&& marks.shared.spec_used() <= self.shared.spec_used()
        &&& marks.gpu.spec_used() <= self.gpu.spec_used()
        &&& page_ceil(marks.private.spec_used() as int) == marks.private.spec_used()
        &&& page_ceil(marks.shared.spec_used() as int) == marks.shared.spec_used()
        &&& page_ceil(marks.gpu.spec_used() as int) == marks.gpu.spec_used()
    }

    /// Marks that were taken of allocators reach them and all that follow
    /// from them; allocators that have gone back to marks of `pre` are the
    /// same as `pre`.
    pub proof fn lemma_marks(pre: KernelAllocators, post: KernelAllocators, marks: Marks)
        requires
            pre.wf(),
            pre.marked(marks),
            post.follows(pre),
        ensures
            pre.reaches(marks),
            post.reaches(marks),
    {
        lemma_page_ceil(pre.private.spec_used() as int);
        lemma_page_ceil(pre.shared.spec_used() as int);
        lemma_page_ceil(pre.gpu.spec_used() as int);
    }

    /// Takes back every allocation made since `marks` were taken, whose
    /// holders must have let go of them: the allocators are as they were
    /// then.
    pub fn rewind(&mut self, marks: Marks)
        requires
            old(self).wf(),
            old(self).reaches(marks),
        ensures
            final(self).wf(),
            final(self).marked(marks),
            final(self).private.spec_region() == old(self).private.spec_region(),
            final(self).shared.spec_region() == old(self).shared.spec_region(),
            final(self).gpu.spec_region() == old(self).gpu.spec_region(),
            final(self).private.spec_min_align() == old(self).private.spec_min_align(),
            final(self).shared.spec_min_align() == old(self).shared.spec_min_align(),
            final(self).gpu.spec_min_align() == old(self).gpu.spec_min_align(),
            marks.private.spec_used() == old(self).private.spec_used() ==> final(self).private
                == old(self).private,
            marks.shared.spec_used() == old(self).shared.spec_used() ==> final(self).shared == old(
                self,
            ).shared,
            marks.gpu.spec_used() == old(self).gpu.spec_used() ==> final(self).gpu == old(
                self,
            ).gpu,
    {
        proof {
            lemma_page_ceil(marks.private.spec_used() as int);
            lemma_page_ceil(marks.shared.spec_used() as int);
            lemma_page_ceil(marks.gpu.spec_used() as int);
        }
        self.private.rewind(marks.private);
        self.shared.rewind(marks.shared);
        self.gpu.rewind(marks.gpu);
    }

    /// Whether `self` is what `pre` can become by allocating: the regions and
    /// least alignments stay, and no allocator has more room than before.
    pub open spec fn follows(&self, pre: KernelAllocators) -> bool {
        &&& self.wf()
        &&& self.private.follows(pre.private)
        &&& self.shared.follows(pre.shared)
        &&& self.gpu.follows(pre.gpu)
    }

    /// The least alignments of shared and of private memory are powers of
    /// two, so that an allocation fails for want of room only.
    pub open spec fn aligned(&self) -> bool {
        &&& is_pow2(self.private.spec_min_align() as int)
        &&& is_pow2(self.shared.spec_min_align() as int)
    }

    /// What taking `shared` bytes of shared memory and `private` bytes of
    /// private memory does, where there is room for both: how the
    /// allocators `post` follow from `pre`.
    pub open spec fn took(pre: KernelAllocators, post: KernelAllocators, shared: int, private: int)
        -> bool {
        &&& post.follows(pre)
        &&& post.gpu == pre.gpu
        &&& shared <= pre.shared.room()
        &&& private <= pre.private.room()
        &&& post.shared.room() == pre.shared.room() - shared
        &&& post.private.room() == pre.private.room() - private
    }

    /// What an attempt to take `shared` bytes of shared memory and `private`
    /// bytes of private memory does that fails: there is not room for both,
    /// and nothing stays taken.
    pub open spec fn lacked(pre: KernelAllocators, post: KernelAllocators, shared: int, private: int)
        -> bool {
        &&& post.same_as(pre)
        &&& shared > pre.shared.room() || private > pre.private.room()
    }
}

/// The message that rings the doorbell of the channel with the number
/// `index` of the pipeline `pipe_type`.
pub open spec fn spec_pipe_doorbell(pipe_type: PipeType, index: u64) -> u64 {
    MSG_TX_DOORBELL | pipe_type.spec_index() | (index << 2)
}

/// Returns the message that rings the doorbell of the channel with the
/// number `index` of the pipeline `pipe_type`.
pub fn pipe_doorbell(pipe_type: PipeType, index: usize) -> (r: u64)
    requires
        index < NUM_PIPES,
    ensures
        r == spec_pipe_doorbell(pipe_type, index as u64),
{
    MSG_TX_DOORBELL | pipe_type.index() | ((index as u64) << 2)
}

/// The message that tells the firmware of init data at the GPU virtual
/// address `initdata`: the address, cut to the bits that the message has
/// for it, under the tag of the message.
pub open spec fn spec_init_message(initdata: u64) -> u64 {
    MSG_INIT | (initdata & INIT_DATA_MASK)
}

/// Returns the message that tells the firmware of init data at the GPU
/// virtual address `initdata`.
pub fn init_message(initdata: u64) -> (r: u64)
    ensures
        r == spec_init_message(initdata),
{
    MSG_INIT | (initdata & INIT_DATA_MASK)
}

/// Returns the message that rings the doorbell of the device control
/// channel.
pub fn device_control_doorbell() -> (r: u64)
    ensures
        r == MSG_TX_DOORBELL | DOORBELL_DEVCTRL,
{
    MSG_TX_DOORBELL | DOORBELL_DEVCTRL
}

/// Tells whether the message `msg` to the endpoint `ep` is the firmware's
/// doorbell: the firmware has sent on some channel.
pub fn is_rx_doorbell(ep: u8, msg: u64) -> (r: bool)
    ensures
        r == (ep == EP_FIRMWARE && msg == MSG_RX_DOORBELL),
{
    ep == EP_FIRMWARE && msg == MSG_RX_DOORBELL
}

/// What the host sends to the firmware to start it.
#[derive(Clone, Copy, Debug, PartialEq, Eq, Structural)]
pub struct InitMessages {
    /// The message for the firmware's own endpoint: where the init data is.
    pub firmware: u64,
    /// The message for the doorbell endpoint, to be sent after the first:
    /// the device control channel holds a message.
    pub doorbell: u64,
}

/// What to map for a range of device registers: the pages that hold the
/// range. The answer is the address of the first page, the bytes of the
/// pages, and the distance of the range from the first page.
pub open spec fn io_window(map: IOMapping) -> (int, int, int) {
    (
        page_floor(map.base as int),
        page_ceil(map.base + map.size) - page_floor(map.base as int),
        map.base - page_floor(map.base as int),
    )
}

/// The pages of a range of registers hold the whole range, start and end on
/// page boundaries, and not a page of them could be left out.
pub proof fn lemma_io_window(map: IOMapping)
    ensures
        ({
            let (base, len, off) = io_window(map);
            &&& base % (UAT_PGSZ as int) == 0
            &&& len % (UAT_PGSZ as int) == 0
            &&& base <= map.base
            &&& map.base + map.size <= base + len
            &&& 0 <= off < UAT_PGSZ
            &&& base + off == map.base
            &&& base + len < map.base + map.size + UAT_PGSZ
        }),
{
    lemma_page_floor(map.base as int);
    lemma_page_ceil(map.base + map.size);
    let a = page_floor(map.base as int);
    let b = page_ceil(map.base + map.size);
    let p = UAT_PGSZ as int;
    vstd::arithmetic::div_mod::lemma_fundamental_div_mod(a, p);
    vstd::arithmetic::div_mod::lemma_fundamental_div_mod(b, p);
    let k = b / p - a / p;
    assert(b - a == p * k) by (nonlinear_arith)
        requires
            a == p * (a / p),
            b == p * (b / p),
            k == b / p - a / p,
    ;
    assert((p * k) % p == 0) by (nonlinear_arith)
        requires
            p > 0,
    ;
}

/// How a range of registers is checked before anything is mapped:
/// `InvalidArgument` where the firmware has no such number for a range, or
/// where a size is no `u32`; `NoSpace` where the pages of the range reach
/// past the last address.
pub open spec fn io_checked(index: usize, map: IOMapping) -> Result<(), Error> {
    if index >= NUM_IO_MAPPINGS || map.size > u32::MAX || map.range_size > u32::MAX {
        Err(Error::InvalidArgument)
    } else if page_ceil(map.base + map.size) > usize::MAX {
        Err(Error::NoSpace)
    } else {
        Ok(())
    }
}

/// What the firmware is told of a range of registers that is mapped at
/// `mapping`.
pub open spec fn io_entry(map: IOMapping, mapping: Mapping) -> crate::fw::initdata::raw::IOMapping {
    crate::fw::initdata::raw::IOMapping {
        phys_addr: map.base as u64,
        virt_addr: (mapping.iova + io_window(map).2) as u64,
        size: map.size as u32,
        range_size: map.range_size as u32,
        readwrite: if map.writable {
            1
        } else {
            0
        },
    }
}

/// Computes what to map for a range of device registers, after the checks
/// of `io_checked`: the address of the first page, the bytes of the pages,
/// and the distance of the range from the first page.
pub fn io_pages(index: usize, map: &IOMapping) -> (r: Result<(usize, usize, usize), Error>)
    ensures
        match r {
            Ok((base, len, off)) => {
                &&& io_checked(index, *map) is Ok
                &&& (base as int, len as int, off as int) == io_window(*map)
            },
            Err(e) => io_checked(index, *map) == Err::<(), Error>(e),
        },
{
    if index >= NUM_IO_MAPPINGS || map.size > u32::MAX as usize || map.range_size
        > u32::MAX as usize {
        return Err(Error::InvalidArgument);
    }
    proof {
        lemma_io_window(*map);
    }
    let reach = match map.base.checked_add(map.size) {
        Some(e) => e,
        None => {
            proof {
                lemma_page_ceil(map.base + map.size);
            }
            return Err(Error::NoSpace);
        },
    };
    let end = match page_align_up(reach) {
        Some(e) => e,
        None => {
            return Err(Error::NoSpace);
        },
    };
    let base = page_align_down(map.base);
    Ok((base, end - base, map.base - base))
}

/// The number of ranges in `cfg` with numbers below `upto`.
pub open spec fn io_count(cfg: Seq<Option<IOMapping>>, upto: int) -> int
    decreases upto,
{
    if upto <= 0 {
        0
    } else {
        io_count(cfg, upto - 1) + (if cfg[upto - 1] is Some {
            1int
        } else {
            0int
        })
    }
}

/// The ranges below a number are counted from none up to that number.
pub proof fn lemma_io_count(cfg: Seq<Option<IOMapping>>, upto: int)
    requires
        0 <= upto,
    ensures
        0 <= io_count(cfg, upto) <= upto,
    decreases upto,
{
    if upto > 0 {
        lemma_io_count(cfg, upto - 1);
    }
}

/// A range below `upto` is counted among the ranges below `upto`: fewer
/// ranges lie below it than below `upto`.
pub proof fn lemma_io_count_grows(cfg: Seq<Option<IOMapping>>, i: int, upto: int)
    requires
        0 <= i < upto,
        cfg[i] is Some,
    ensures
        io_count(cfg, i) < io_count(cfg, upto),
    decreases upto,
{
    if i + 1 < upto {
        lemma_io_count_grows(cfg, i, upto - 1);
    }
}

/// Whether `entry` is what the firmware is told of the range `map` once
/// `map_io` has mapped its pages: `map_io` was asked for the pages of the
/// range and has answered with a mapping in which the range has an address.
pub open spec fn io_mapped<F: Fn(usize, usize) -> Result<Mapping, Error>>(
    map_io: &F,
    map: IOMapping,
    mapping: Mapping,
    entry: crate::fw::initdata::raw::IOMapping,
) -> bool {
    let w = io_window(map);
    &&& map_io.ensures((w.0 as usize, w.1 as usize), Ok(mapping))
    &&& mapping.iova + w.2 <= usize::MAX
    &&& entry == io_entry(map, mapping)
}

/// Whether `e` is an error with which the mapping of the range `map` under
/// the number `index` can end: that of the checks beforehand, else that of
/// `map_io`, else `NoSpace` where the range has no address in the mapping
/// that `map_io` has answered with.
pub open spec fn io_failed<F: Fn(usize, usize) -> Result<Mapping, Error>>(
    map_io: &F,
    index: usize,
    map: IOMapping,
    e: Error,
) -> bool {
    let w = io_window(map);
    ||| io_checked(index, map) == Err::<(), Error>(e)
    ||| io_checked(index, map) is Ok && exists|answer: Result<Mapping, Error>|
        {
            &&& #[trigger] map_io.ensures((w.0 as usize, w.1 as usize), answer)
            &&& match answer {
                Err(f) => f == e,
                Ok(m) => m.iova + w.2 > usize::MAX && e == Error::NoSpace,
            }
        }
}

/// The channels on which the firmware sends.
pub struct RXChannels {
    /// Events.
    pub event: EventChannel,
    /// The firmware's log.
    pub fw_log: FWLogChannel,
    /// The firmware's kernel trace.
    pub ktrace: KTraceChannel,
    /// Statistics.
    pub stats: StatsChannel,
}

impl RXChannels {
    /// Each channel is well formed and has the slots of its kind.
    pub open spec fn wf(&self) -> bool {
        &&& self.event.ch.wf()
        &&& self.fw_log.ch.wf()
        &&& self.ktrace.ch.wf()
        &&& self.stats.ch.wf()
        &&& self.event.ch.spec_count() == 0x100
        &&& self.fw_log.ch.spec_count() == 0x100
        &&& self.ktrace.ch.spec_count() == 0x200
        &&& self.stats.ch.spec_count() == 0x100
    }

    /// Nothing is pending on any channel.
    pub open spec fn is_empty(&self) -> bool {
        &&& self.event.ch.spec_ring(0).is_empty()
        &&& forall|i: int| 0 <= i < 6 ==> (#[trigger] self.fw_log.ch.spec_ring(i)).is_empty()
        &&& self.ktrace.ch.spec_ring(0).is_empty()
        &&& self.stats.ch.spec_ring(0).is_empty()
    }

    /// Takes every pending message of every channel: of the firmware's log,
    /// of the kernel trace, of the statistics and of the events, in this
    /// order. None is left pending; the slots and where the firmware finds
    /// the channels stay.
    pub fn poll(&mut self) -> (p: Polled)
        requires
            old(self).wf(),
        ensures
            final(self).wf(),
            final(self).is_empty(),
            final(self).stats.stats_max == old(self).stats.stats_max,
            final(self).same_places(*old(self)),
            p.fw_log@.len() == 6,
            forall|i: int|
                0 <= i < 6 ==> (#[trigger] p.fw_log@[i])@ == old(self).fw_log.ch.spec_ring(
                    i,
                ).pending(),
            p.ktrace@ == old(self).ktrace.ch.spec_ring(0).pending(),
            p.stats@.len() == old(self).stats.ch.spec_ring(0).pending().len(),
            forall|i: int|
                0 <= i < p.stats@.len() ==> #[trigger] p.stats@[i] == stats_event(
                    old(self).stats.ch.spec_ring(0).pending()[i],
                    old(self).stats.stats_max,
                ),
            p.event@ == old(self).event.ch.spec_ring(0).pending(),
    {
        let fw_log = self.fw_log.poll();
        let ktrace = self.ktrace.poll();
        let stats = self.stats.poll();
        let event = self.event.poll();
        Polled { fw_log, ktrace, stats, event }
    }

    /// Whether the firmware finds every channel of `self` where it finds
    /// the channel of `other`.
    pub open spec fn same_places(&self, other: RXChannels) -> bool {
        &&& self.event.ch.spec_state_va() == other.event.ch.spec_state_va()
        &&& self.event.ch.spec_ring_va() == other.event.ch.spec_ring_va()
        &&& self.fw_log.ch.spec_state_va() == other.fw_log.ch.spec_state_va()
        &&& self.fw_log.ch.spec_ring_va() == other.fw_log.ch.spec_ring_va()
        &&& self.ktrace.ch.spec_state_va() == other.ktrace.ch.spec_state_va()
        &&& self.ktrace.ch.spec_ring_va() == other.ktrace.ch.spec_ring_va()
        &&& self.stats.ch.spec_state_va() == other.stats.ch.spec_state_va()
        &&& self.stats.ch.spec_ring_va() == other.stats.ch.spec_ring_va()
    }

    /// The bytes of shared memory that the channels take.
    pub open spec fn need() -> int {
        RXChannel::<ChannelState, RawEventMsg>::need(0x100) + RXChannel::<
            FWLogChannelState,
            RawFWLogMsg,
        >::need(0x100) + RXChannel::<ChannelState, RawKTraceMsg>::need(0x200) + RXChannel::<
            ChannelState,
            RawStatsMsg,
        >::need(0x100)
    }

    /// Makes the channels, with nothing pending, for a firmware whose last
    /// statistics tag is `stats_max`.
    ///
    /// Fails with `NoMemory` where shared memory has not room for them.
    pub fn new(alloc: &mut KernelAllocators, stats_max: u32) -> (r: Result<RXChannels, Error>)
        requires
            old(alloc).wf(),
            old(alloc).aligned(),
        ensures
            match r {
                Ok(c) => {
                    &&& KernelAllocators::took(*old(alloc), *final(alloc), Self::need(), 0)
                    &&& c.wf()
                    &&& c.is_empty()
                    &&& c.stats.stats_max == stats_max
                },
                Err(e) => e == Error::NoMemory && KernelAllocators::lacked(
                    *old(alloc),
                    *final(alloc),
                    Self::need(),
                    0,
                ),
            },
    {
        let marks = alloc.mark();
        let ghost before = *alloc;
        let _ = layout_of::<crate::fw::channels::raw::ChannelState>();
        let _ = layout_of::<crate::fw::types::Array<6, crate::fw::channels::raw::ChannelState>>();
        let _ = layout_of::<RawEventMsg>();
        let _ = layout_of::<RawFWLogMsg>();
        let _ = layout_of::<RawKTraceMsg>();
        let _ = layout_of::<RawStatsMsg>();
        proof {
            RXChannel::<ChannelState, RawEventMsg>::lemma_creatable(*alloc, 0x100);
        }
        let event = match EventChannel::new(alloc) {
            Ok(c) => c,
            Err(e) => {
                proof {
                    KernelAllocators::lemma_marks(before, *alloc, marks);
                }
                alloc.rewind(marks);
                return Err(e);
            },
        };
        proof {
            RXChannel::<FWLogChannelState, RawFWLogMsg>::lemma_creatable(*alloc, 0x100);
        }
        let fw_log = match FWLogChannel::new(alloc) {
            Ok(c) => c,
            Err(e) => {
                proof {
                    KernelAllocators::lemma_marks(before, *alloc, marks);
                }
                alloc.rewind(marks);
                return Err(e);
            },
        };
        proof {
            RXChannel::<ChannelState, RawKTraceMsg>::lemma_creatable(*alloc, 0x200);
        }
        let ktrace = match KTraceChannel::new(alloc) {
            Ok(c) => c,
            Err(e) => {
                proof {
                    KernelAllocators::lemma_marks(before, *alloc, marks);
                }
                alloc.rewind(marks);
                return Err(e);
            },
        };
        proof {
            RXChannel::<ChannelState, RawStatsMsg>::lemma_creatable(*alloc, 0x100);
        }
        let stats = match StatsChannel::new(alloc, stats_max) {
            Ok(c) => c,
            Err(e) => {
                proof {
                    KernelAllocators::lemma_marks(before, *alloc, marks);
                }
                alloc.rewind(marks);
                return Err(e);
            },
        };
        Ok(RXChannels { event, fw_log, ktrace, stats })
    }
}

/// The channels on which the host tells the pipelines of work: `NUM_PIPES`
/// for each pipeline.
pub struct PipeChannels {
    /// The channels of the vertex pipeline.
    pub vtx: Vec<PipeChannel>,
    /// The channels of the fragment pipeline.
    pub frag: Vec<PipeChannel>,
    /// The channels of the compute pipeline.
    pub comp: Vec<PipeChannel>,
}

impl PipeChannels {
    /// There are `NUM_PIPES` channels for each pipeline, each well formed
    /// and of 0x100 slots.
    pub open spec fn wf(&self) -> bool {
        &&& self.vtx@.len() == NUM_PIPES
        &&& self.frag@.len() == NUM_PIPES
        &&& self.comp@.len() == NUM_PIPES
        &&& forall|i: int|
            0 <= i < NUM_PIPES ==> (#[trigger] self.vtx@[i]).ch.wf() && self.vtx@[i].ch.spec_count()
                == 0x100
        &&& forall|i: int|
            0 <= i < NUM_PIPES ==> (#[trigger] self.frag@[i]).ch.wf()
                && self.frag@[i].ch.spec_count() == 0x100
        &&& forall|i: int|
            0 <= i < NUM_PIPES ==> (#[trigger] self.comp@[i]).ch.wf()
                && self.comp@[i].ch.spec_count() == 0x100
    }

    /// The channels of the pipeline `pipe_type`.
    pub open spec fn of(&self, pipe_type: PipeType) -> Seq<PipeChannel> {
        match pipe_type {
            PipeType::Vertex => self.vtx@,
            PipeType::Fragment => self.frag@,
            PipeType::Compute => self.comp@,
        }
    }

    /// Nothing is pending on any channel.
    pub open spec fn is_empty(&self) -> bool {
        &&& forall|i: int|
            0 <= i < NUM_PIPES ==> (#[trigger] self.vtx@[i]).ch.spec_ring().is_empty()
        &&& forall|i: int|
            0 <= i < NUM_PIPES ==> (#[trigger] self.frag@[i]).ch.spec_ring().is_empty()
        &&& forall|i: int|
            0 <= i < NUM_PIPES ==> (#[trigger] self.comp@[i]).ch.spec_ring().is_empty()
    }

    /// The bytes of shared memory that the channels take: the pointer cells
    /// of three channels in each of `NUM_PIPES` sets.
    pub open spec fn shared_need() -> int {
        12 * TXChannel::<ChannelState, PipeMsg>::shared_need()
    }

    /// The bytes of private memory that the channels take: the slots of
    /// three channels in each of `NUM_PIPES` sets.
    pub open spec fn private_need() -> int {
        12 * TXChannel::<ChannelState, PipeMsg>::private_need(0x100)
    }

    /// Makes the channels, with nothing pending: for each set in turn the
    /// channel of the vertex pipeline, of the fragment pipeline and of the
    /// compute pipeline.
    ///
    /// Fails with `NoMemory` where shared or private memory has not room for
    /// them.
    pub fn new(alloc: &mut KernelAllocators) -> (r: Result<PipeChannels, Error>)
        requires
            old(alloc).wf(),
            old(alloc).aligned(),
        ensures
            match r {
                Ok(c) => {
                    &&& KernelAllocators::took(
                        *old(alloc),
                        *final(alloc),
                        Self::shared_need(),
                        Self::private_need(),
                    )
                    &&& c.wf()
                    &&& c.is_empty()
                },
                Err(e) => e == Error::NoMemory && KernelAllocators::lacked(
                    *old(alloc),
                    *final(alloc),
                    Self::shared_need(),
                    Self::private_need(),
                ),
            },
    {
        let marks = alloc.mark();
        let ghost before = *alloc;
        let _ = layout_of::<crate::fw::channels::raw::ChannelState>();
        let _ = layout_of::<PipeMsg>();
        let ghost per_cell = TXChannel::<ChannelState, PipeMsg>::shared_need();
        let ghost per_ring = TXChannel::<ChannelState, PipeMsg>::private_need(0x100);
        let mut pipes = PipeChannels { vtx: Vec::new(), frag: Vec::new(), comp: Vec::new() };
        let mut i: usize = 0;
        let ghost mut ts: int = 0;
        let ghost mut tp: int = 0;
        proof {
            TXChannel::<ChannelState, PipeMsg>::lemma_creatable(*alloc, 0x100);
        }
        while i < NUM_PIPES
            invariant
                i <= NUM_PIPES,
                per_cell == TXChannel::<ChannelState, PipeMsg>::shared_need(),
                per_ring == TXChannel::<ChannelState, PipeMsg>::private_need(0x100),
                0 <= per_cell,
                0 <= per_ring,
                align_of::<crate::fw::channels::raw::ChannelState>() <= usize::MAX,
                align_of::<PipeMsg>() <= usize::MAX,
                old(alloc).aligned(),
                before == *old(alloc),
                before.wf(),
                before.marked(marks),
                ts == 3 * i * per_cell,
                tp == 3 * i * per_ring,
                KernelAllocators::took(*old(alloc), *alloc, ts, tp),
                pipes.vtx@.len() == i,
                pipes.frag@.len() == i,
                pipes.comp@.len() == i,
                forall|k: int|
                    0 <= k < i ==> (#[trigger] pipes.vtx@[k]).ch.wf()
                        && pipes.vtx@[k].ch.spec_ring().is_empty() && pipes.vtx@[k].ch.spec_count()
                        == 0x100,
                forall|k: int|
                    0 <= k < i ==> (#[trigger] pipes.frag@[k]).ch.wf()
                        && pipes.frag@[k].ch.spec_ring().is_empty()
                        && pipes.frag@[k].ch.spec_count() == 0x100,
                forall|k: int|
                    0 <= k < i ==> (#[trigger] pipes.comp@[k]).ch.wf()
                        && pipes.comp@[k].ch.spec_ring().is_empty()
                        && pipes.comp@[k].ch.spec_count() == 0x100,
            decreases NUM_PIPES - i,
        {
            proof {
                TXChannel::<ChannelState, PipeMsg>::lemma_creatable(*alloc, 0x100);
                assert(ts + 3 * per_cell <= 12 * per_cell && tp + 3 * per_ring <= 12 * per_ring && 3 * (i + 1) * per_cell == ts
                    + 3 * per_cell && 3 * (i + 1) * per_ring == tp + 3 * per_ring) by (nonlinear_arith)
                    requires
                        ts == 3 * i * per_cell,
                        tp == 3 * i * per_ring,
                        0 <= i < 4,
                        0 <= per_cell,
                        0 <= per_ring,
                ;
            }
            let vtx = match PipeChannel::new(alloc) {
                Ok(c) => c,
                Err(e) => {
                    proof {
                        KernelAllocators::lemma_marks(before, *alloc, marks);
                    }
                    alloc.rewind(marks);
                    return Err(e);
                },
            };
            proof {
                TXChannel::<ChannelState, PipeMsg>::lemma_creatable(*alloc, 0x100);
            }
            let frag = match PipeChannel::new(alloc) {
                Ok(c) => c,
                Err(e) => {
                    proof {
                        KernelAllocators::lemma_marks(before, *alloc, marks);
                    }
                    alloc.rewind(marks);
                    return Err(e);
                },
            };
            proof {
                TXChannel::<ChannelState, PipeMsg>::lemma_creatable(*alloc, 0x100);
            }
            let comp = match PipeChannel::new(alloc) {
                Ok(c) => c,
                Err(e) => {
                    proof {
                        KernelAllocators::lemma_marks(before, *alloc, marks);
                    }
                    alloc.rewind(marks);
                    return Err(e);
                },
            };
            pipes.vtx.push(vtx);
            pipes.frag.push(frag);
            pipes.comp.push(comp);
            i = i + 1;
            proof {
                ts = ts + 3 * per_cell;
                tp = tp + 3 * per_ring;
            }
        }
        Ok(pipes)
    }
}

/// The channels on which the host sends, besides those of the pipelines.
pub struct TXChannels {
    /// Device control.
    pub device_control: DeviceControlChannel,
}

impl TXChannels {
    /// The channel is well formed and has the slots of its kind.
    pub open spec fn wf(&self) -> bool {
        &&& self.device_control.ch.wf()
        &&& self.device_control.ch.spec_count() == 0x100
    }

    /// The bytes of shared memory that the channels take.
    pub open spec fn shared_need() -> int {
        TXChannel::<ChannelState, DeviceControlMsg>::shared_need()
    }

    /// The bytes of private memory that the channels take.
    pub open spec fn private_need() -> int {
        TXChannel::<ChannelState, DeviceControlMsg>::private_need(0x100)
    }

    /// Makes the channels, with nothing pending.
    ///
    /// Fails with `NoMemory` where shared or private memory has not room for
    /// them.
    pub fn new(alloc: &mut KernelAllocators) -> (r: Result<TXChannels, Error>)
        requires
            old(alloc).wf(),
            old(alloc).aligned(),
        ensures
            match r {
                Ok(c) => {
                    &&& KernelAllocators::took(
                        *old(alloc),
                        *final(alloc),
                        Self::shared_need(),
                        Self::private_need(),
                    )
                    &&& c.wf()
                    &&& c.device_control.ch.spec_ring().is_empty()
                },
                Err(e) => e == Error::NoMemory && KernelAllocators::lacked(
                    *old(alloc),
                    *final(alloc),
                    Self::shared_need(),
                    Self::private_need(),
                ),
            },
    {
        let _ = layout_of::<crate::fw::channels::raw::ChannelState>();
        let _ = layout_of::<DeviceControlMsg>();
        proof {
            TXChannel::<ChannelState, DeviceControlMsg>::lemma_creatable(*alloc, 0x100);
        }
        match DeviceControlChannel::new(alloc) {
            Ok(device_control) => Ok(TXChannels { device_control }),
            Err(e) => Err(e),
        }
    }
}

/// What the host has read from the firmware's channels in one go.
pub struct Polled {
    /// The messages of the firmware's log, stream by stream.
    pub fw_log: Vec<Vec<RawFWLogMsg>>,
    /// The messages of the kernel trace.
    pub ktrace: Vec<RawKTraceMsg>,
    /// The statistics messages, each told apart by its tag.
    pub stats: Vec<StatsEvent>,
    /// The event messages.
    pub event: Vec<RawEventMsg>,
}

/// Makes a buffer of `size` bytes that the firmware has asked for: a new
/// object that `vmap` has shown to the host and `map` to the GPU, in this
/// order.
///
/// Fails with the error of `vmap`, and then without calling `map`, else
/// with the error of `map`.
pub fn shmem_alloc<
    V: FnOnce(usize) -> Result<VMap, Error>,
    M: FnOnce(usize) -> Result<Mapping, Error>,
>(size: usize, vmap: V, map: M) -> (r: Result<ObjectRef, Error>)
    requires
        vmap.requires((size,)),
        map.requires((size,)),
    ensures
        match r {
            Ok(o) => {
                &&& o.spec_size() == size
                &&& o.vmap matches Some(v) && vmap.ensures((size,), Ok(v))
                &&& o.mapping matches Some(m) && map.ensures((size,), Ok(m))
            },
            Err(e) => {
                ||| vmap.ensures((size,), Err(e))
                ||| exists|v: VMap| #[trigger]
                    vmap.ensures((size,), Ok(v)) && map.ensures((size,), Err(e))
            },
        },
{
    let mut obj = match new_object(size) {
        Ok(o) => o,
        Err(e) => {
            return Err(e);
        },
    };
    match obj.vmap(vmap) {
        Ok(_) => {},
        Err(e) => {
            return Err(e);
        },
    }
    match obj.map_into(map) {
        Ok(_) => Ok(obj),
        Err(e) => Err(e),
    }
}

/// What the host keeps for one GPU and its firmware.
pub struct GPUManager {
    /// Whether the firmware has been started.
    pub initialized: bool,
    /// What the firmware is handed when it starts.
    pub initdata: GPUObject<InitData, SimpleAllocation<InitData>>,
    /// The allocators.
    pub alloc: KernelAllocators,
    /// The ranges of device registers that are mapped for the firmware.
    pub io_mappings: Vec<Mapping>,
    /// The channels on which the firmware sends.
    pub rx_channels: RXChannels,
    /// The channels on which the host sends.
    pub tx_channels: TXChannels,
    /// The channels of the pipelines.
    pub pipes: PipeChannels,
    /// The event slots.
    pub event_manager: EventManager,
}

impl GPUManager {
    /// What the firmware is told of where to find its channels.
    pub open spec fn spec_runtime(&self) -> crate::fw::initdata::raw::RuntimePointers {
        self.initdata.spec_inner().runtime_pointers.spec_raw()
    }

    /// What the firmware is told of the ranges of device registers.
    pub open spec fn spec_io_table(&self) -> Seq<Option<crate::fw::initdata::raw::IOMapping>> {
        self.initdata.spec_inner().runtime_pointers.spec_inner().hwdata_b.spec_raw().io_mappings@
    }

    /// The GPU virtual address of the init data.
    pub open spec fn spec_initdata_va(&self) -> u64 {
        self.initdata.spec_gpu_va()
    }

    /// The firmware is told of every channel, and of each where it is.
    pub open spec fn wired(&self) -> bool {
        let rt = self.spec_runtime();
        &&& rt.device_control matches Some(c) && c.state.spec_addr()
            == self.tx_channels.device_control.ch.spec_state_va() && c.ring.spec_addr()
            == self.tx_channels.device_control.ch.spec_ring_va()
        &&& rt.event matches Some(c) && c.state.spec_addr()
            == self.rx_channels.event.ch.spec_state_va() && c.ring.spec_addr()
            == self.rx_channels.event.ch.spec_ring_va()
        &&& rt.fw_log matches Some(c) && c.state.spec_addr()
            == self.rx_channels.fw_log.ch.spec_state_va() && c.ring.spec_addr()
            == self.rx_channels.fw_log.ch.spec_ring_va()
        &&& rt.ktrace matches Some(c) && c.state.spec_addr()
            == self.rx_channels.ktrace.ch.spec_state_va() && c.ring.spec_addr()
            == self.rx_channels.ktrace.ch.spec_ring_va()
        &&& rt.stats matches Some(c) && c.state.spec_addr()
            == self.rx_channels.stats.ch.spec_state_va() && c.ring.spec_addr()
            == self.rx_channels.stats.ch.spec_ring_va()
        &&& rt.pipes@.len() == NUM_PIPES
        &&& forall|i: int|
            0 <= i < NUM_PIPES ==> {
                let p = #[trigger] rt.pipes@[i];
                &&& p.vtx.state.spec_addr() == self.pipes.vtx@[i].ch.spec_state_va()
                &&& p.vtx.ring.spec_addr() == self.pipes.vtx@[i].ch.spec_ring_va()
                &&& p.frag.state.spec_addr() == self.pipes.frag@[i].ch.spec_state_va()
                &&& p.frag.ring.spec_addr() == self.pipes.frag@[i].ch.spec_ring_va()
                &&& p.comp.state.spec_addr() == self.pipes.comp@[i].ch.spec_state_va()
                &&& p.comp.ring.spec_addr() == self.pipes.comp@[i].ch.spec_ring_va()
            }
    }

    /// Every part is well formed, the init data points to its parts, and the
    /// firmware is told of every channel.
    pub open spec fn wf(&self) -> bool {
        let init = self.initdata.spec_inner();
        let rt = init.runtime_pointers.spec_inner();
        &&& self.initdata.wf()
        &&& init.runtime_pointers.wf()
        &&& rt.hwdata_b.wf()
        &&& self.initdata.spec_raw().runtime_pointers.spec_addr()
            == init.runtime_pointers.spec_gpu_va()
        &&& init.runtime_pointers.spec_raw().hwdata_b.spec_addr() == rt.hwdata_b.spec_gpu_va()
        &&& rt.hwdata_b.spec_raw().io_mappings@.len() == NUM_IO_MAPPINGS
        &&& self.alloc.wf()
        &&& self.rx_channels.wf()
        &&& self.tx_channels.wf()
        &&& self.pipes.wf()
        &&& self.event_manager.wf()
        &&& self.wired()
    }

    /// The firmware has not been started, and no message is pending on any
    /// channel.
    pub open spec fn is_quiet(&self) -> bool {
        &&& !self.initialized
        &&& self.rx_channels.is_empty()
        &&& self.tx_channels.device_control.ch.spec_ring().is_empty()
        &&& self.pipes.is_empty()
    }

    /// Nothing has happened yet: the manager is quiet, and no range of
    /// device registers is mapped.
    pub open spec fn is_fresh(&self) -> bool {
        &&& self.is_quiet()
        &&& self.io_mappings@.len() == 0
        &&& forall|i: int| 0 <= i < NUM_IO_MAPPINGS ==> self.spec_io_table()[i] is None
    }

    /// Whether the table of ranges `after` and the mappings kept `kept_after`
    /// are what the table `before` and the mappings `kept_before` become
    /// when the ranges of `cfg` with numbers below `upto` are mapped by
    /// `map_io`.
    ///
    /// Every such range has a number that the firmware knows. For each, in
    /// the order of their numbers, one mapping is kept behind those kept
    /// before, and the range stands in the table as `map_io` has mapped it
    /// there. The rest of the table stays, and so do the mappings kept
    /// before.
    pub open spec fn io_configured<F: Fn(usize, usize) -> Result<Mapping, Error>>(
        map_io: &F,
        cfg: Seq<Option<IOMapping>>,
        upto: int,
        before: Seq<Option<crate::fw::initdata::raw::IOMapping>>,
        after: Seq<Option<crate::fw::initdata::raw::IOMapping>>,
        kept_before: Seq<Mapping>,
        kept_after: Seq<Mapping>,
    ) -> bool {
        &&& after.len() == before.len()
        &&& kept_after.len() == kept_before.len() + io_count(cfg, upto)
        &&& forall|j: int| 0 <= j < kept_before.len() ==> #[trigger] kept_after[j] == kept_before[j]
        &&& forall|i: int|
            0 <= i < before.len() ==> if i < upto && cfg[i] is Some {
                &&& (#[trigger] after[i]) matches Some(entry)
                &&& io_mapped(
                    map_io,
                    cfg[i]->0,
                    kept_after[kept_before.len() + io_count(cfg, i)],
                    entry,
                )
            } else {
                after[i] == before[i]
            }
        &&& forall|i: int| 0 <= i < upto && (#[trigger] cfg[i]) is Some ==> i < before.len()
    }

    /// A well-formed manager has well-formed parts, a table of
    /// `NUM_IO_MAPPINGS` ranges, init data at an address that is not null,
    /// and a firmware that is told of every channel.
    pub proof fn lemma_wf(&self)
        requires
            self.wf(),
        ensures
            self.alloc.wf(),
            self.rx_channels.wf(),
            self.tx_channels.wf(),
            self.pipes.wf(),
            self.event_manager.wf(),
            self.wired(),
            self.spec_io_table().len() == NUM_IO_MAPPINGS,
            self.spec_initdata_va() != 0,
    {
    }

    /// The bytes of shared memory that a manager takes.
    pub open spec fn shared_need() -> int {
        PipeChannels::shared_need() + EventManager::need() + RXChannels::need()
            + TXChannels::shared_need()
    }

    /// The bytes of private memory that a manager takes.
    pub open spec fn private_need() -> int {
        page_ceil(size_of::<crate::fw::initdata::raw::HwDataB>() as int) + page_ceil(
            size_of::<crate::fw::initdata::raw::RuntimePointers>() as int,
        ) + page_ceil(size_of::<crate::fw::initdata::raw::InitData>() as int)
            + PipeChannels::private_need() + EventManager::need() + TXChannels::private_need()
    }

    fn empty_io_table() -> (r: Vec<Option<crate::fw::initdata::raw::IOMapping>>)
        ensures
            r@.len() == NUM_IO_MAPPINGS,
            forall|i: int| 0 <= i < NUM_IO_MAPPINGS ==> r@[i] is None,
    {
        let mut table: Vec<Option<crate::fw::initdata::raw::IOMapping>> = Vec::new();
        let mut i: usize = 0;
        while i < NUM_IO_MAPPINGS
            invariant
                i <= NUM_IO_MAPPINGS,
                table@.len() == i,
                forall|k: int| 0 <= k < i ==> table@[k] is None,
            decreases NUM_IO_MAPPINGS - i,
        {
            table.push(None);
            i = i + 1;
        }
        table
    }

    fn new_initdata(alloc: &mut KernelAllocators) -> (r: Result<
        GPUObject<InitData, SimpleAllocation<InitData>>,
        Error,
    >)
        requires
            old(alloc).wf(),
            old(alloc).aligned(),
        ensures
            match r {
                Ok(o) => {
                    let init = o.spec_inner();
                    let rt = init.runtime_pointers.spec_inner();
                    &&& KernelAllocators::took(
                        *old(alloc),
                        *final(alloc),
                        0,
                        page_ceil(size_of::<crate::fw::initdata::raw::HwDataB>() as int)
                            + page_ceil(
                            size_of::<crate::fw::initdata::raw::RuntimePointers>() as int,
                        ) + page_ceil(size_of::<crate::fw::initdata::raw::InitData>() as int),
                    )
                    &&& o.wf()
                    &&& init.runtime_pointers.wf()
                    &&& rt.hwdata_b.wf()
                    &&& o.spec_raw().runtime_pointers.spec_addr()
                        == init.runtime_pointers.spec_gpu_va()
                    &&& init.runtime_pointers.spec_raw().hwdata_b.spec_addr()
                        == rt.hwdata_b.spec_gpu_va()
                    &&& rt.hwdata_b.spec_raw().io_mappings@.len() == NUM_IO_MAPPINGS
                    &&& forall|i: int|
                        0 <= i < NUM_IO_MAPPINGS ==> rt.hwdata_b.spec_raw().io_mappings@[i] is None
                },
                Err(e) => e == Error::NoMemory && KernelAllocators::lacked(
                    *old(alloc),
                    *final(alloc),
                    0,
                    page_ceil(size_of::<crate::fw::initdata::raw::HwDataB>() as int) + page_ceil(
                        size_of::<crate::fw::initdata::raw::RuntimePointers>() as int,
                    ) + page_ceil(size_of::<crate::fw::initdata::raw::InitData>() as int),
                ),
            },
    {
        let marks = alloc.mark();
        let ghost before = *alloc;
        let _ = layout_of::<crate::fw::initdata::raw::HwDataB>();
        let _ = layout_of::<crate::fw::initdata::raw::RuntimePointers>();
        let _ = layout_of::<crate::fw::initdata::raw::InitData>();
        proof {
            broadcast use vstd::layout::align_properties;

            lemma_page_ceil(size_of::<crate::fw::initdata::raw::HwDataB>() as int);
            lemma_page_ceil(size_of::<crate::fw::initdata::raw::RuntimePointers>() as int);
            lemma_page_ceil(size_of::<crate::fw::initdata::raw::InitData>() as int);
        }
        let table = Self::empty_io_table();
        let fill_table = move |_inner: &HwDataB| -> (r: crate::fw::initdata::raw::HwDataB)
            ensures
                r.io_mappings@ == table@,
            {
                crate::fw::initdata::raw::HwDataB { io_mappings: table }
            };
        let hwdata_b = match alloc.private.new_object(HwDataB {  }, fill_table) {
            Ok(o) => o,
            Err(e) => {
                proof {
                    KernelAllocators::lemma_marks(before, *alloc, marks);
                }
                alloc.rewind(marks);
                return Err(e);
            },
        };
        let fill_runtime = |inner: &RuntimePointers| -> (r:
            crate::fw::initdata::raw::RuntimePointers)
            ensures
                r.hwdata_b.spec_addr() == inner.hwdata_b.spec_gpu_va(),
                r.pipes@.len() == 0,
                r.device_control is None,
                r.event is None,
                r.fw_log is None,
                r.ktrace is None,
                r.stats is None,
            {
                crate::fw::initdata::raw::RuntimePointers {
                    pipes: Vec::new(),
                    device_control: None,
                    event: None,
                    fw_log: None,
                    ktrace: None,
                    stats: None,
                    hwdata_b: inner.hwdata_b.weak_pointer(),
                }
            };
        let runtime_pointers = match alloc.private.new_object(
            RuntimePointers { hwdata_b },
            fill_runtime,
        ) {
            Ok(o) => o,
            Err(e) => {
                proof {
                    KernelAllocators::lemma_marks(before, *alloc, marks);
                }
                alloc.rewind(marks);
                return Err(e);
            },
        };
        let fill_init = |inner: &InitData| -> (r: crate::fw::initdata::raw::InitData)
            ensures
                r.runtime_pointers.spec_addr() == inner.runtime_pointers.spec_gpu_va(),
            {
                crate::fw::initdata::raw::InitData {
                    runtime_pointers: inner.runtime_pointers.weak_pointer(),
                }
            };
        match alloc.private.new_object(InitData { runtime_pointers }, fill_init) {
            Ok(o) => Ok(o),
            Err(e) => {
                proof {
                    KernelAllocators::lemma_marks(before, *alloc, marks);
                }
                alloc.rewind(marks);
                Err(e)
            },
        }
    }

    /// The needs of a manager are sums of whole pages, none negative.
    pub proof fn lemma_needs()
        ensures
            0 <= PipeChannels::shared_need(),
            0 <= PipeChannels::private_need(),
            0 <= EventManager::need(),
            0 <= RXChannels::need(),
            0 <= TXChannels::shared_need(),
            0 <= TXChannels::private_need(),
            0 <= page_ceil(size_of::<crate::fw::initdata::raw::HwDataB>() as int),
            0 <= page_ceil(size_of::<crate::fw::initdata::raw::RuntimePointers>() as int),
            0 <= page_ceil(size_of::<crate::fw::initdata::raw::InitData>() as int),
            0 <= Self::shared_need(),
            0 <= Self::private_need(),
    {
        lemma_page_ceil(size_of::<crate::fw::channels::raw::ChannelState>() as int);
        lemma_page_ceil(
            size_of::<crate::fw::types::Array<6, crate::fw::channels::raw::ChannelState>>() as int,
        );
        lemma_page_ceil(0x100usize * size_of::<PipeMsg>());
        lemma_page_ceil(0x100usize * size_of::<DeviceControlMsg>());
        lemma_page_ceil(0x100usize * size_of::<RawEventMsg>());
        lemma_page_ceil(0x100usize * size_of::<RawFWLogMsg>());
        lemma_page_ceil(0x200usize * size_of::<RawKTraceMsg>());
        lemma_page_ceil(0x100usize * size_of::<RawStatsMsg>());
        lemma_page_ceil(crate::event::NUM_EVENTS * size_of::<u32>());
        lemma_page_ceil(size_of::<crate::fw::initdata::raw::HwDataB>() as int);
        lemma_page_ceil(size_of::<crate::fw::initdata::raw::RuntimePointers>() as int);
        lemma_page_ceil(size_of::<crate::fw::initdata::raw::InitData>() as int);
    }

    fn pipe_pointers(pipes: &PipeChannels) -> (r: Vec<crate::fw::initdata::raw::PipeChannels>)
        requires
            pipes.wf(),
        ensures
            r@.len() == NUM_PIPES,
            forall|i: int|
                0 <= i < NUM_PIPES ==> {
                    let p = #[trigger] r@[i];
                    &&& p.vtx.state.spec_addr() == pipes.vtx@[i].ch.spec_state_va()
                    &&& p.vtx.ring.spec_addr() == pipes.vtx@[i].ch.spec_ring_va()
                    &&& p.frag.state.spec_addr() == pipes.frag@[i].ch.spec_state_va()
                    &&& p.frag.ring.spec_addr() == pipes.frag@[i].ch.spec_ring_va()
                    &&& p.comp.state.spec_addr() == pipes.comp@[i].ch.spec_state_va()
                    &&& p.comp.ring.spec_addr() == pipes.comp@[i].ch.spec_ring_va()
                },
    {
        let mut out: Vec<crate::fw::initdata::raw::PipeChannels> = Vec::new();
        let mut i: usize = 0;
        while i < NUM_PIPES
            invariant
                i <= NUM_PIPES,
                pipes.wf(),
                out@.len() == i,
                forall|k: int|
                    0 <= k < i ==> {
                        let p = #[trigger] out@[k];
                        &&& p.vtx.state.spec_addr() == pipes.vtx@[k].ch.spec_state_va()
                        &&& p.vtx.ring.spec_addr() == pipes.vtx@[k].ch.spec_ring_va()
                        &&& p.frag.state.spec_addr() == pipes.frag@[k].ch.spec_state_va()
                        &&& p.frag.ring.spec_addr() == pipes.frag@[k].ch.spec_ring_va()
                        &&& p.comp.state.spec_addr() == pipes.comp@[k].ch.spec_state_va()
                        &&& p.comp.ring.spec_addr() == pipes.comp@[k].ch.spec_ring_va()
                    },
            decreases NUM_PIPES - i,
        {
            assert(pipes.vtx@[i as int].ch.wf());
            assert(pipes.frag@[i as int].ch.wf());
            assert(pipes.comp@[i as int].ch.wf());
            out.push(
                crate::fw::initdata::raw::PipeChannels {
                    vtx: pipes.vtx[i].to_raw(),
                    frag: pipes.frag[i].to_raw(),
                    comp: pipes.comp[i].to_raw(),
                },
            );
            i = i + 1;
        }
        out
    }

    /// Makes a manager over the three regions, for a firmware whose last
    /// statistics tag is `stats_max`: the init data, the channels of the
    /// pipelines, the event slots, the channels on which the firmware sends
    /// and the device control channel, in this order, and then tells the
    /// init data where every channel is.
    ///
    /// Every allocation has the least alignment `MIN_ALIGN`. Fails with
    /// `NoMemory` where the shared or the private region has not room for
    /// what `shared_need` and `private_need` say.
    pub fn build(private: Region, shared: Region, gpu: Region, stats_max: u32) -> (r: Result<
        GPUManager,
        Error,
    >)
        requires
            private.wf(),
            shared.wf(),
            gpu.wf(),
        ensures
            match r {
                Ok(m) => {
                    &&& Self::shared_need() <= shared.spec_len()
                    &&& Self::private_need() <= private.spec_len()
                    &&& m.wf()
                    &&& m.is_fresh()
                    &&& m.rx_channels.stats.stats_max == stats_max
                    &&& m.alloc.private.spec_region() == private
                    &&& m.alloc.shared.spec_region() == shared
                    &&& m.alloc.gpu.spec_region() == gpu
                    &&& m.alloc.shared.room() == shared.spec_len() - Self::shared_need()
                    &&& m.alloc.private.room() == private.spec_len() - Self::private_need()
                },
                Err(e) => {
                    &&& e == Error::NoMemory
                    &&& Self::shared_need() > shared.spec_len() || Self::private_need()
                        > private.spec_len()
                },
            },
    {
        let mut alloc = KernelAllocators {
            private: SimpleAllocator::new(private, MIN_ALIGN),
            shared: SimpleAllocator::new(shared, MIN_ALIGN),
            gpu: SimpleAllocator::new(gpu, MIN_ALIGN),
        };
        proof {
            reveal_with_fuel(is_pow2, 7);
            Self::lemma_needs();
        }
        let ghost a0 = alloc;
        let mut initdata = match Self::new_initdata(&mut alloc) {
            Ok(o) => o,
            Err(e) => {
                return Err(e);
            },
        };
        let ghost a1 = alloc;
        let pipes = match PipeChannels::new(&mut alloc) {
            Ok(o) => o,
            Err(e) => {
                return Err(e);
            },
        };
        let ghost a2 = alloc;
        let _ = layout_of::<u32>();
        proof {
            EventManager::lemma_creatable(alloc);
        }
        let event_manager = match EventManager::new(&mut alloc) {
            Ok(o) => o,
            Err(e) => {
                return Err(e);
            },
        };
        let ghost a3 = alloc;
        let rx_channels = match RXChannels::new(&mut alloc, stats_max) {
            Ok(o) => o,
            Err(e) => {
                return Err(e);
            },
        };
        let ghost a4 = alloc;
        let tx_channels = match TXChannels::new(&mut alloc) {
            Ok(o) => o,
            Err(e) => {
                return Err(e);
            },
        };
        let p_device_control = tx_channels.device_control.to_raw();
        let p_event = rx_channels.event.to_raw();
        let p_fw_log = rx_channels.fw_log.to_raw();
        let p_ktrace = rx_channels.ktrace.to_raw();
        let p_stats = rx_channels.stats.to_raw();
        let p_pipes = Self::pipe_pointers(&pipes);
        let ghost g_dc = p_device_control;
        let ghost g_event = p_event;
        let ghost g_fw_log = p_fw_log;
        let ghost g_ktrace = p_ktrace;
        let ghost g_stats = p_stats;
        let ghost g_pipes = p_pipes@;
        let wire = move |
            raw: &mut crate::fw::initdata::raw::RuntimePointers,
            _inner: &mut RuntimePointers,
        |
            ensures
                final(raw).device_control == Some(g_dc),
                final(raw).event == Some(g_event),
                final(raw).fw_log == Some(g_fw_log),
                final(raw).ktrace == Some(g_ktrace),
                final(raw).stats == Some(g_stats),
                final(raw).pipes@ == g_pipes,
                final(raw).hwdata_b == old(raw).hwdata_b,
                *final(_inner) == *old(_inner),
            {
                raw.device_control = Some(p_device_control);
                raw.event = Some(p_event);
                raw.fw_log = Some(p_fw_log);
                raw.ktrace = Some(p_ktrace);
                raw.stats = Some(p_stats);
                raw.pipes = p_pipes;
            };
        let init = initdata.deref_mut();
        init.runtime_pointers.with_mut(wire);
        let m = GPUManager {
            initialized: false,
            initdata,
            alloc,
            io_mappings: Vec::new(),
            rx_channels,
            tx_channels,
            pipes,
            event_manager,
        };
        Ok(m)
    }

    /// Maps the range of device registers `map` for the firmware, under the
    /// number `index`: checks the range, asks `map_io` for a mapping of its
    /// pages, tells the firmware where the range is, and keeps the mapping.
    ///
    /// Fails as `io_failed` says, and then nothing changes. In no case does
    /// anything change but the table of ranges and the mappings kept.
    pub fn iomap<F: Fn(usize, usize) -> Result<Mapping, Error>>(
        &mut self,
        index: usize,
        map: &IOMapping,
        map_io: &F,
    ) -> (r: Result<(), Error>)
        requires
            old(self).wf(),
            forall|base: usize, len: usize| #[trigger] map_io.requires((base, len)),
        ensures
            final(self).wf(),
            final(self).initialized == old(self).initialized,
            final(self).alloc == old(self).alloc,
            final(self).rx_channels == old(self).rx_channels,
            final(self).tx_channels == old(self).tx_channels,
            final(self).pipes == old(self).pipes,
            final(self).event_manager == old(self).event_manager,
            final(self).spec_runtime() == old(self).spec_runtime(),
            final(self).spec_initdata_va() == old(self).spec_initdata_va(),
            match r {
                Ok(_) => exists|mapping: Mapping|
                    {
                        &&& io_checked(index, *map) is Ok
                        &&& #[trigger] io_mapped(map_io, *map, mapping, io_entry(*map, mapping))
                        &&& final(self).spec_io_table() == old(self).spec_io_table().update(
                            index as int,
                            Some(io_entry(*map, mapping)),
                        )
                        &&& final(self).io_mappings@ == old(self).io_mappings@.push(mapping)
                    },
                Err(e) => {
                    &&& io_failed(map_io, index, *map, e)
                    &&& final(self).spec_io_table() == old(self).spec_io_table()
                    &&& final(self).io_mappings@ == old(self).io_mappings@
                },
            },
    {
        let (base, len, off) = match io_pages(index, map) {
            Ok(w) => w,
            Err(e) => {
                return Err(e);
            },
        };
        let answer = map_io(base, len);
        proof {
            let w = io_window(*map);
            assert(map_io.ensures((w.0 as usize, w.1 as usize), answer));
        }
        let mapping = match answer {
            Ok(m) => m,
            Err(e) => {
                return Err(e);
            },
        };
        let virt = match mapping.iova().checked_add(off) {
            Some(v) => v,
            None => {
                return Err(Error::NoSpace);
            },
        };
        let entry = crate::fw::initdata::raw::IOMapping {
            phys_addr: map.base as u64,
            virt_addr: virt as u64,
            size: map.size as u32,
            range_size: map.range_size as u32,
            readwrite: if map.writable {
                1
            } else {
                0
            },
        };
        let record = |raw: &mut crate::fw::initdata::raw::HwDataB, _inner: &mut HwDataB|
            requires
                index < old(raw).io_mappings@.len(),
            ensures
                final(raw).io_mappings@ == old(raw).io_mappings@.update(index as int, Some(entry)),
                *final(_inner) == *old(_inner),
            {
                raw.io_mappings.set(index, Some(entry));
            };
        let init = self.initdata.deref_mut();
        let runtime = init.runtime_pointers.deref_mut();
        runtime.hwdata_b.with_mut(record);
        self.io_mappings.push(mapping);
        proof {
            assert(io_mapped(map_io, *map, mapping, io_entry(*map, mapping)));
        }
        Ok(())
    }

    /// Returns the message that tells the firmware where its init data is.
    pub fn init_message(&self) -> (r: u64)
        requires
            self.wf(),
        ensures
            r == spec_init_message(self.spec_initdata_va()),
    {
        init_message(self.initdata.gpu_va())
    }

    /// Starts the firmware, as far as the host's own state goes: puts
    /// `initialize` on the device control channel and answers with the two
    /// messages to send, the first to the firmware's own endpoint and then
    /// the second to the doorbell endpoint.
    ///
    /// With the device control channel full nothing changes and the answer
    /// is `Busy`. In no case does anything change but that channel.
    pub fn init(&mut self, initialize: &DeviceControlMsg) -> (r: Result<InitMessages, Error>)
        requires
            old(self).wf(),
        ensures
            final(self).wf(),
            final(self).alloc == old(self).alloc,
            final(self).rx_channels == old(self).rx_channels,
            final(self).pipes == old(self).pipes,
            final(self).event_manager == old(self).event_manager,
            final(self).io_mappings == old(self).io_mappings,
            final(self).spec_io_table() == old(self).spec_io_table(),
            final(self).spec_initdata_va() == old(self).spec_initdata_va(),
            match r {
                Ok(m) => {
                    &&& m.firmware == spec_init_message(old(self).spec_initdata_va())
                    &&& m.doorbell == MSG_TX_DOORBELL | DOORBELL_DEVCTRL
                    &&& !old(self).tx_channels.device_control.ch.spec_ring().is_full()
                    &&& final(self).tx_channels.device_control.ch.spec_ring() == old(
                        self,
                    ).tx_channels.device_control.ch.spec_ring().send(*initialize)
                    &&& final(self).initialized
                },
                Err(e) => {
                    &&& e == Error::Busy
                    &&& old(self).tx_channels.device_control.ch.spec_ring().is_full()
                    &&& final(self).tx_channels.device_control.ch.spec_ring() == old(
                        self,
                    ).tx_channels.device_control.ch.spec_ring()
                    &&& final(self).initialized == old(self).initialized
                },
            },
    {
        let firmware = self.init_message();
        match self.tx_channels.device_control.send(initialize) {
            Ok(_) => {
                self.initialized = true;
                Ok(InitMessages { firmware, doorbell: device_control_doorbell() })
            },
            Err(e) => Err(e),
        }
    }

    /// Hears the message `msg` that the firmware has sent to the endpoint
    /// `ep`. The firmware's doorbell has the host take every pending
    /// message: of the firmware's log, of the kernel trace, of the
    /// statistics and of the events, in this order. Any other message is
    /// answered with `None` and changes nothing.
    pub fn recv_message(&mut self, ep: u8, msg: u64) -> (r: Option<Polled>)
        requires
            old(self).wf(),
        ensures
            final(self).wf(),
            final(self).initialized == old(self).initialized,
            final(self).alloc == old(self).alloc,
            final(self).tx_channels == old(self).tx_channels,
            final(self).pipes == old(self).pipes,
            final(self).event_manager == old(self).event_manager,
            final(self).io_mappings == old(self).io_mappings,
            final(self).spec_io_table() == old(self).spec_io_table(),
            final(self).spec_initdata_va() == old(self).spec_initdata_va(),
            match r {
                None => {
                    &&& ep != EP_FIRMWARE || msg != MSG_RX_DOORBELL
                    &&& final(self).rx_channels == old(self).rx_channels
                },
                Some(p) => {
                    let rx = old(self).rx_channels;
                    &&& ep == EP_FIRMWARE
                    &&& msg == MSG_RX_DOORBELL
                    &&& final(self).rx_channels.is_empty()
                    &&& p.fw_log@.len() == 6
                    &&& forall|i: int|
                        0 <= i < 6 ==> (#[trigger] p.fw_log@[i])@ == rx.fw_log.ch.spec_ring(
                            i,
                        ).pending()
                    &&& p.ktrace@ == rx.ktrace.ch.spec_ring(0).pending()
                    &&& p.stats@.len() == rx.stats.ch.spec_ring(0).pending().len()
                    &&& forall|i: int|
                        0 <= i < p.stats@.len() ==> #[trigger] p.stats@[i] == stats_event(
                            rx.stats.ch.spec_ring(0).pending()[i],
                            rx.stats.stats_max,
                        )
                    &&& p.event@ == rx.event.ch.spec_ring(0).pending()
                },
            },
    {
        if !is_rx_doorbell(ep, msg) {
            return None;
        }
        Some(self.rx_channels.poll())
    }

    /// Tells the firmware of the work of `batch`: sends the message of the
    /// batch on the first channel of the batch's pipeline and answers with
    /// the message that rings the doorbell of that channel.
    ///
    /// With that channel full nothing changes and the answer is `Busy`. In
    /// no case does anything change but that channel.
    pub fn submit_batch(&mut self, batch: &WorkQueueBatch) -> (r: Result<u64, Error>)
        requires
            old(self).wf(),
        ensures
            final(self).wf(),
            final(self).initialized == old(self).initialized,
            final(self).alloc == old(self).alloc,
            final(self).rx_channels == old(self).rx_channels,
            final(self).tx_channels == old(self).tx_channels,
            final(self).event_manager == old(self).event_manager,
            final(self).io_mappings == old(self).io_mappings,
            final(self).spec_io_table() == old(self).spec_io_table(),
            final(self).spec_initdata_va() == old(self).spec_initdata_va(),
            forall|t: PipeType, i: int|
                (t != batch.spec_pipe_type() || i != 0) && 0 <= i < NUM_PIPES ==> (
                #[trigger] final(self).pipes.of(t)[i]) == old(self).pipes.of(t)[i],
            match r {
                Ok(d) => {
                    let before = old(self).pipes.of(batch.spec_pipe_type())[0].ch.spec_ring();
                    &&& d == spec_pipe_doorbell(batch.spec_pipe_type(), 0)
                    &&& !before.is_full()
                    &&& final(self).pipes.of(batch.spec_pipe_type())[0].ch.spec_ring()
                        == before.send(batch.spec_msg())
                    &&& final(self).pipes.of(batch.spec_pipe_type())[0].ch.spec_ring().pending()
                        == before.pending().push(batch.spec_msg())
                },
                Err(e) => {
                    let before = old(self).pipes.of(batch.spec_pipe_type())[0].ch.spec_ring();
                    &&& e == Error::Busy
                    &&& before.is_full()
                    &&& final(self).pipes.of(batch.spec_pipe_type())[0].ch.spec_ring() == before
                },
            },
    {
        let pipe_type = batch.pipe_type();
        let index: usize = 0;
        let sent = match pipe_type {
            PipeType::Vertex => {
                let pipe = &mut self.pipes.vtx[index];
                batch.submit(pipe)
            },
            PipeType::Fragment => {
                let pipe = &mut self.pipes.frag[index];
                batch.submit(pipe)
            },
            PipeType::Compute => {
                let pipe = &mut self.pipes.comp[index];
                batch.submit(pipe)
            },
        };
        match sent {
            Ok(_) => Ok(pipe_doorbell(pipe_type, index)),
            Err(e) => Err(e),
        }
    }

    /// Maps every range of device registers of `cfg` for the firmware, in
    /// the order of their numbers, as `iomap` does, up to the first that
    /// fails.
    ///
    /// One mapping is kept for each range that was mapped, behind those kept
    /// before and in the order of the ranges, and the table tells the
    /// firmware of each range where that mapping shows it, as
    /// `io_configured` says.
    ///
    /// Fails with the error of the first range that fails; the ranges
    /// before it stay mapped, with their mappings kept. In no case does
    /// anything change but the table of ranges and the mappings kept.
    pub fn map_config<F: Fn(usize, usize) -> Result<Mapping, Error>>(
        &mut self,
        cfg: &HWConfig,
        map_io: &F,
    ) -> (r: Result<(), Error>)
        requires
            old(self).wf(),
            forall|base: usize, len: usize| #[trigger] map_io.requires((base, len)),
        ensures
            final(self).wf(),
            final(self).initialized == old(self).initialized,
            final(self).alloc == old(self).alloc,
            final(self).rx_channels == old(self).rx_channels,
            final(self).tx_channels == old(self).tx_channels,
            final(self).pipes == old(self).pipes,
            final(self).event_manager == old(self).event_manager,
            final(self).spec_runtime() == old(self).spec_runtime(),
            final(self).spec_initdata_va() == old(self).spec_initdata_va(),
            match r {
                Ok(_) => Self::io_configured(
                    map_io,
                    cfg.io_mappings@,
                    cfg.io_mappings@.len() as int,
                    old(self).spec_io_table(),
                    final(self).spec_io_table(),
                    old(self).io_mappings@,
                    final(self).io_mappings@,
                ),
                Err(e) => exists|i: int|
                    {
                        &&& 0 <= i < cfg.io_mappings@.len()
                        &&& (#[trigger] cfg.io_mappings@[i]) is Some
                        &&& io_failed(map_io, i as usize, cfg.io_mappings@[i]->0, e)
                        &&& Self::io_configured(
                            map_io,
                            cfg.io_mappings@,
                            i,
                            old(self).spec_io_table(),
                            final(self).spec_io_table(),
                            old(self).io_mappings@,
                            final(self).io_mappings@,
                        )
                    },
            },
    {
        let mut i: usize = 0;
        proof {
            old(self).lemma_wf();
        }
        while i < cfg.io_mappings.len()
            invariant
                i <= cfg.io_mappings@.len(),
                self.wf(),
                forall|base: usize, len: usize| #[trigger] map_io.requires((base, len)),
                self.initialized == old(self).initialized,
                self.alloc == old(self).alloc,
                self.rx_channels == old(self).rx_channels,
                self.tx_channels == old(self).tx_channels,
                self.pipes == old(self).pipes,
                self.event_manager == old(self).event_manager,
                self.spec_runtime() == old(self).spec_runtime(),
                self.spec_initdata_va() == old(self).spec_initdata_va(),
                old(self).spec_io_table().len() == NUM_IO_MAPPINGS,
                Self::io_configured(
                    map_io,
                    cfg.io_mappings@,
                    i as int,
                    old(self).spec_io_table(),
                    self.spec_io_table(),
                    old(self).io_mappings@,
                    self.io_mappings@,
                ),
            decreases cfg.io_mappings@.len() - i,
        {
            let ghost before = self.spec_io_table();
            let ghost kept = self.io_mappings@;
            let ghost kept_old = old(self).io_mappings@;
            let ghost ranges = cfg.io_mappings@;
            proof {
                lemma_io_count(ranges, i as int);
            }
            if let Some(map) = cfg.io_mappings[i] {
                match self.iomap(i, &map, map_io) {
                    Ok(_) => {
                        proof {
                            let after = self.spec_io_table();
                            let kept_after = self.io_mappings@;
                            let mapping = choose|mapping: Mapping|
                                {
                                    &&& io_checked(i, map) is Ok
                                    &&& #[trigger] io_mapped(
                                        map_io,
                                        map,
                                        mapping,
                                        io_entry(map, mapping),
                                    )
                                    &&& after == before.update(
                                        i as int,
                                        Some(io_entry(map, mapping)),
                                    )
                                    &&& kept_after == kept.push(mapping)
                                };
                            assert(kept_after[kept_old.len() + io_count(ranges, i as int)]
                                == mapping);
                            assert(io_mapped(map_io, map, mapping, after[i as int]->0));
                            assert forall|k: int| 0 <= k < before.len() implies if k < i + 1
                                && ranges[k] is Some {
                                &&& (#[trigger] after[k]) matches Some(entry)
                                &&& io_mapped(
                                    map_io,
                                    ranges[k]->0,
                                    kept_after[kept_old.len() + io_count(ranges, k)],
                                    entry,
                                )
                            } else {
                                after[k] == old(self).spec_io_table()[k]
                            } by {
                                if k != i {
                                    assert(after[k] == before[k]);
                                    if k < i && ranges[k] is Some {
                                        lemma_io_count(ranges, k);
                                        lemma_io_count_grows(ranges, k, i as int);
                                        assert(kept_after[kept_old.len() + io_count(ranges, k)]
                                            == kept[kept_old.len() + io_count(ranges, k)]);
                                    }
                                }
                            }
                            assert forall|j: int| 0 <= j < kept_old.len() implies
                                #[trigger] kept_after[j] == kept_old[j] by {
                                assert(kept[j] == kept_old[j]);
                            }
                        }
                    },
                    Err(e) => {
                        return Err(e);
                    },
                }
            }
            i = i + 1;
        }
        Ok(())
    }

    /// Makes a manager over the three regions for the GPU that `cfg`
    /// describes, as `build` does, and maps the ranges of device registers
    /// of `cfg` by `map_io`, as `map_config` does.
    ///
    /// The manager keeps one mapping for each range of `cfg`, in the order
    /// of the ranges, and no other.
    ///
    /// Fails with `NoMemory` where the shared or the private region has not
    /// room for what `shared_need` and `private_need` say, else with the
    /// error of the first range that fails. With room in the regions and no
    /// range in `cfg` the manager is made.
    pub fn new<F: Fn(usize, usize) -> Result<Mapping, Error>>(
        private: Region,
        shared: Region,
        gpu: Region,
        cfg: &HWConfig,
        map_io: &F,
    ) -> (r: Result<GPUManager, Error>)
        requires
            private.wf(),
            shared.wf(),
            gpu.wf(),
            forall|base: usize, len: usize| #[trigger] map_io.requires((base, len)),
        ensures
            match r {
                Ok(m) => {
                    &&& Self::shared_need() <= shared.spec_len()
                    &&& Self::private_need() <= private.spec_len()
                    &&& m.wf()
                    &&& m.is_quiet()
                    &&& m.rx_channels.stats.stats_max == cfg.stats_max
                    &&& m.alloc.private.spec_region() == private
                    &&& m.alloc.shared.spec_region() == shared
                    &&& m.alloc.gpu.spec_region() == gpu
                    &&& Self::io_configured(
                        map_io,
                        cfg.io_mappings@,
                        cfg.io_mappings@.len() as int,
                        Seq::new(NUM_IO_MAPPINGS as nat, |i: int| None),
                        m.spec_io_table(),
                        Seq::empty(),
                        m.io_mappings@,
                    )
                    &&& m.io_mappings@.len() == io_count(
                        cfg.io_mappings@,
                        cfg.io_mappings@.len() as int,
                    )
                },
                Err(e) => if Self::shared_need() > shared.spec_len() || Self::private_need()
                    > private.spec_len() {
                    e == Error::NoMemory
                } else {
                    exists|i: int|
                        {
                            &&& 0 <= i < cfg.io_mappings@.len()
                            &&& (#[trigger] cfg.io_mappings@[i]) is Some
                            &&& io_failed(map_io, i as usize, cfg.io_mappings@[i]->0, e)
                        }
                },
            },
    {
        let mut m = match Self::build(private, shared, gpu, cfg.stats_max) {
            Ok(m) => m,
            Err(e) => {
                return Err(e);
            },
        };
        proof {
            m.lemma_wf();
            assert(m.spec_io_table() =~= Seq::new(NUM_IO_MAPPINGS as nat, |i: int| None));
            assert(m.io_mappings@ =~= Seq::empty());
        }
        match m.map_config(cfg, map_io) {
            Ok(_) => Ok(m),
            Err(e) => Err(e),
        }
    }

    /// Asks for an event slot, as `EventManager::get` does. Nothing else of
    /// the manager changes.
    pub fn new_event_slot(&mut self, token: Option<Token>) -> (r: Result<Event, Error>)
        requires
            old(self).wf(),
        ensures
            final(self).wf(),
            SlotAllocator::acquired(old(self).event_manager.0, final(self).event_manager.0, token, r),
            final(self).initialized == old(self).initialized,
            final(self).alloc == old(self).alloc,
            final(self).rx_channels == old(self).rx_channels,
            final(self).tx_channels == old(self).tx_channels,
            final(self).pipes == old(self).pipes,
            final(self).io_mappings == old(self).io_mappings,
            final(self).spec_io_table() == old(self).spec_io_table(),
            final(self).spec_initdata_va() == old(self).spec_initdata_va(),
    {
        self.event_manager.get(token)
    }

    /// Gives an event slot back, as `EventManager::release` does. Nothing
    /// else of the manager changes.
    pub fn release_event_slot(&mut self, event: Event) -> (r: Result<(), Error>)
        requires
            old(self).wf(),
        ensures
            final(self).wf(),
            SlotAllocator::released(
                old(self).event_manager.0,
                final(self).event_manager.0,
                event,
                r,
            ),
            final(self).initialized == old(self).initialized,
            final(self).alloc == old(self).alloc,
            final(self).rx_channels == old(self).rx_channels,
            final(self).tx_channels == old(self).tx_channels,
            final(self).pipes == old(self).pipes,
            final(self).io_mappings == old(self).io_mappings,
            final(self).spec_io_table() == old(self).spec_io_table(),
            final(self).spec_initdata_va() == old(self).spec_initdata_va(),
    {
        self.event_manager.release(event)
    }
}

} // verus!
