//! Layouts of work queues and of the commands in them.

use vstd::prelude::*;
use crate::fw::event::NotifierList;
use crate::fw::types::{
    get_u32, le_bytes, le_u32, lemma_le_roundtrip, put_u32, put_zeros, zeros, Array, Pad, U64,
};
use crate::fw::workqueue::CommandType;
use crate::object::GPUWeakPointer;

verus! {

/// A command that holds the queue until a stamp has reached a value.
#[derive(Debug)]
pub struct Barrier {
    /// The kind of the command: `CommandType::Barrier`.
    pub tag: CommandType,
    /// The stamp to wait for.
    pub stamp: GPUWeakPointer<u32>,
    /// The value that the stamp must reach.
    pub wait_value: u32,
    /// The event slot of the stamp.
    pub event: u32,
    /// The queue's own stamp value at the barrier.
    pub stamp_self: u32,
    /// A number that names the command in traces.
    pub uuid: u32,
    /// Not understood; 0.
    pub unk: u32,
}

/// Data that the firmware keeps for one GPU context. The host fills it once.
#[derive(Clone, Copy, Debug)]
pub struct GPUContextData {
    /// Not understood.
    pub unk_0: u16,
    /// Not understood.
    pub unk_2: Array<0x3, u8>,
    /// Not understood.
    pub unk_5: u8,
    /// Not understood.
    pub unk_6: Array<0x18, u8>,
    /// Not understood.
    pub unk_1e: u8,
    /// Not understood.
    pub unk_1f: u8,
    /// Not understood.
    pub unk_20: Array<0x3, u8>,
    /// Not understood.
    pub unk_23: u8,
    /// Not understood.
    pub unk_24: Array<0x1c, u8>,
}

impl Default for GPUContextData {
    fn default() -> (r: Self)
        ensures
            r.unk_0 == 0xffff,
            r.unk_5 == 1,
            r.unk_1e == 0xff,
            r.unk_1f == 0,
            r.unk_23 == 2,
            forall|i: int| 0 <= i < 0x3 ==> r.unk_2@[i] == 0 && r.unk_20@[i] == 0,
            forall|i: int| 0 <= i < 0x18 ==> r.unk_6@[i] == 0,
            forall|i: int| 0 <= i < 0x1c ==> r.unk_24@[i] == 0,
    {
        let short = [0u8; 0x3];
        let long = [0u8; 0x18];
        let tail = [0u8; 0x1c];
        assert(short == vstd::array::spec_array_fill_for_copy_type::<u8, 0x3>(0u8));
        assert(long == vstd::array::spec_array_fill_for_copy_type::<u8, 0x18>(0u8));
        assert(tail == vstd::array::spec_array_fill_for_copy_type::<u8, 0x1c>(0u8));
        Self {
            unk_0: 0xffff,
            unk_2: Array::new(short),
            unk_5: 1,
            unk_6: Array::new(long),
            unk_1e: 0xff,
            unk_1f: 0,
            unk_20: Array::new(short),
            unk_23: 2,
            unk_24: Array::new(tail),
        }
    }
}

/// The pointer cells of the ring of a work queue.
#[derive(Debug)]
pub struct RingState {
    /// Index behind the last command that the GPU has finished.
    pub gpu_doneptr: u32,
    /// Unused bytes.
    pub __pad0: Pad<0xc>,
    /// Not understood.
    pub unk_10: u32,
    /// Unused bytes.
    pub __pad1: Pad<0xc>,
    /// Not understood.
    pub unk_20: u32,
    /// Unused bytes.
    pub __pad2: Pad<0xc>,
    /// Index of the command that the firmware takes next.
    pub gpu_rptr: u32,
    /// Unused bytes.
    pub __pad3: Pad<0xc>,
    /// Index of the slot that the host writes next.
    pub cpu_wptr: u32,
    /// Unused bytes.
    pub __pad4: Pad<0xc>,
    /// The number of slots of the ring.
    pub rb_size: u32,
    /// Unused bytes.
    pub __pad5: Pad<0xc>,
}

impl Default for RingState {
    fn default() -> (r: Self)
        ensures
            r.gpu_doneptr == 0,
            r.unk_10 == 0,
            r.unk_20 == 0,
            r.gpu_rptr == 0,
            r.cpu_wptr == 0,
            r.rb_size == 0,
    {
        RingState {
            gpu_doneptr: 0,
            __pad0: Pad::default(),
            unk_10: 0,
            __pad1: Pad::default(),
            unk_20: 0,
            __pad2: Pad::default(),
            gpu_rptr: 0,
            __pad3: Pad::default(),
            cpu_wptr: 0,
            __pad4: Pad::default(),
            rb_size: 0,
            __pad5: Pad::default(),
        }
    }
}

impl RingState {
    /// The number of bytes of the cells.
    pub const SIZE: usize = 0x60;

    /// The bytes of the cells as the firmware sees them: six words, each at
    /// the start of 0x10 bytes of its own, in the order of the fields.
    pub open spec fn spec_to_bytes(&self) -> Seq<u8> {
        le_bytes(self.gpu_doneptr) + zeros(0xc) + le_bytes(self.unk_10) + zeros(0xc) + le_bytes(
            self.unk_20,
        ) + zeros(0xc) + le_bytes(self.gpu_rptr) + zeros(0xc) + le_bytes(self.cpu_wptr) + zeros(0xc)
            + le_bytes(self.rb_size) + zeros(0xc)
    }

    /// The cells have `SIZE` bytes, and each word stands where its field is
    /// named for.
    pub proof fn lemma_layout(&self)
        ensures
            self.spec_to_bytes().len() == Self::SIZE,
            le_u32(self.spec_to_bytes(), 0x00) == self.gpu_doneptr,
            le_u32(self.spec_to_bytes(), 0x10) == self.unk_10,
            le_u32(self.spec_to_bytes(), 0x20) == self.unk_20,
            le_u32(self.spec_to_bytes(), 0x30) == self.gpu_rptr,
            le_u32(self.spec_to_bytes(), 0x40) == self.cpu_wptr,
            le_u32(self.spec_to_bytes(), 0x50) == self.rb_size,
    {
        let z = zeros(0xc);
        let w0 = le_bytes(self.gpu_doneptr) + z;
        let w1 = le_bytes(self.unk_10) + z;
        let w2 = le_bytes(self.unk_20) + z;
        let w3 = le_bytes(self.gpu_rptr) + z;
        let w4 = le_bytes(self.cpu_wptr) + z;
        let w5 = le_bytes(self.rb_size) + z;
        let all = self.spec_to_bytes();
        lemma_le_roundtrip(Seq::empty(), self.gpu_doneptr, z + w1 + w2 + w3 + w4 + w5);
        lemma_le_roundtrip(w0, self.unk_10, z + w2 + w3 + w4 + w5);
        lemma_le_roundtrip(w0 + w1, self.unk_20, z + w3 + w4 + w5);
        lemma_le_roundtrip(w0 + w1 + w2, self.gpu_rptr, z + w4 + w5);
        lemma_le_roundtrip(w0 + w1 + w2 + w3, self.cpu_wptr, z + w5);
        lemma_le_roundtrip(w0 + w1 + w2 + w3 + w4, self.rb_size, z);
        assert(Seq::empty() + le_bytes(self.gpu_doneptr) + (z + w1 + w2 + w3 + w4 + w5) =~= all);
        assert(w0 + le_bytes(self.unk_10) + (z + w2 + w3 + w4 + w5) =~= all);
        assert(w0 + w1 + le_bytes(self.unk_20) + (z + w3 + w4 + w5) =~= all);
        assert(w0 + w1 + w2 + le_bytes(self.gpu_rptr) + (z + w4 + w5) =~= all);
        assert(w0 + w1 + w2 + w3 + le_bytes(self.cpu_wptr) + (z + w5) =~= all);
        assert(w0 + w1 + w2 + w3 + w4 + le_bytes(self.rb_size) + z =~= all);
    }

    /// Returns the bytes of the cells as the firmware sees them.
    pub fn to_bytes(&self) -> (r: Vec<u8>)
        ensures
            r@ == self.spec_to_bytes(),
            r@.len() == Self::SIZE,
    {
        let mut out: Vec<u8> = Vec::new();
        put_u32(&mut out, self.gpu_doneptr);
        put_zeros(&mut out, 0xc);
        put_u32(&mut out, self.unk_10);
        put_zeros(&mut out, 0xc);
        put_u32(&mut out, self.unk_20);
        put_zeros(&mut out, 0xc);
        put_u32(&mut out, self.gpu_rptr);
        put_zeros(&mut out, 0xc);
        put_u32(&mut out, self.cpu_wptr);
        put_zeros(&mut out, 0xc);
        put_u32(&mut out, self.rb_size);
        put_zeros(&mut out, 0xc);
        assert(out@ =~= self.spec_to_bytes());
        out
    }

    /// Reads the cells from their bytes: the words at their places, whatever
    /// the unused bytes hold. `None` where the bytes are not `SIZE` many.
    pub fn from_bytes(bytes: &[u8]) -> (r: Option<RingState>)
        ensures
            match r {
                Some(c) => {
                    &&& bytes@.len() == Self::SIZE
                    &&& c.gpu_doneptr == le_u32(bytes@, 0x00)
                    &&& c.unk_10 == le_u32(bytes@, 0x10)
                    &&& c.unk_20 == le_u32(bytes@, 0x20)
                    &&& c.gpu_rptr == le_u32(bytes@, 0x30)
                    &&& c.cpu_wptr == le_u32(bytes@, 0x40)
                    &&& c.rb_size == le_u32(bytes@, 0x50)
                },
                None => bytes@.len() != Self::SIZE,
            },
    {
        if bytes.len() != 0x60 {
            return None;
        }
        let mut cells = RingState::default();
        cells.gpu_doneptr = get_u32(bytes, 0x00);
        cells.unk_10 = get_u32(bytes, 0x10);
        cells.unk_20 = get_u32(bytes, 0x20);
        cells.gpu_rptr = get_u32(bytes, 0x30);
        cells.cpu_wptr = get_u32(bytes, 0x40);
        cells.rb_size = get_u32(bytes, 0x50);
        Some(cells)
    }
}

/// How urgent the work of a queue is: the priority, and the constants by
/// which the firmware masks and flags it.
#[derive(Clone, Copy, Debug, PartialEq, Eq, Structural)]
pub struct Priority(pub u32, pub u32, pub U64, pub u32, pub u32, pub u32);

/// The number of priorities.
pub const NUM_PRIORITIES: usize = 4;

/// The priority that a queue has where none is asked for. It is not the
/// lowest.
pub const DEFAULT_PRIORITY: usize = 2;

/// The priority with the number `index`.
pub open spec fn spec_priority(index: int) -> Priority {
    if index == 0 {
        Priority(0, 0, U64(0xffff_ffff_ffff_0000), 1, 0, 1)
    } else if index == 1 {
        Priority(1, 1, U64(0xffff_ffff_0000_0000), 0, 0, 0)
    } else if index == 2 {
        Priority(2, 2, U64(0xffff_0000_0000_0000), 0, 0, 2)
    } else {
        Priority(3, 3, U64(0x0000_0000_0000_0000), 0, 0, 3)
    }
}

/// Returns the priority with the number `index`, or `None` where there is
/// no such priority.
pub fn priority(index: usize) -> (r: Option<Priority>)
    ensures
        r == (if index < NUM_PRIORITIES {
            Some(spec_priority(index as int))
        } else {
            None
        }),
{
    if index == 0 {
        Some(Priority(0, 0, U64(0xffff_ffff_ffff_0000), 1, 0, 1))
    } else if index == 1 {
        Some(Priority(1, 1, U64(0xffff_ffff_0000_0000), 0, 0, 0))
    } else if index == 2 {
        Some(Priority(2, 2, U64(0xffff_0000_0000_0000), 0, 0, 2))
    } else if index == 3 {
        Some(Priority(3, 3, U64(0x0000_0000_0000_0000), 0, 0, 3))
    } else {
        None
    }
}

impl Default for Priority {
    fn default() -> (r: Priority)
        ensures
            r == spec_priority(DEFAULT_PRIORITY as int),
    {
        Priority(2, 2, U64(0xffff_0000_0000_0000), 0, 0, 2)
    }
}

/// What the firmware knows of a work queue.
#[derive(Debug)]
pub struct QueueInfo {
    /// The pointer cells of the ring.
    pub state: GPUWeakPointer<super::RingState>,
    /// The slots of the ring: each holds the address of a command.
    pub ring: GPUWeakPointer<Vec<u64>>,
    /// The list of whom to notify.
    pub notifier_list: GPUWeakPointer<NotifierList>,
    /// A buffer for the firmware's own use.
    pub gpu_buf: GPUWeakPointer<Vec<u8>>,
    /// Read index of the firmware's first stage.
    pub gpu_rptr1: u32,
    /// Read index of the firmware's second stage.
    pub gpu_rptr2: u32,
    /// Read index of the firmware's third stage.
    pub gpu_rptr3: u32,
    /// The event slot of the queue, or -1.
    pub event_id: i32,
    /// How urgent the work of the queue is.
    pub priority: Priority,
    /// Not understood.
    pub unk_4c: i32,
    /// A number that names the queue in traces.
    pub uuid: u32,
    /// Not understood.
    pub unk_54: i32,
    /// Not understood.
    pub unk_58: U64,
    /// Whether the firmware is at work on the queue.
    pub busy: u32,
    /// Unused bytes.
    pub __pad: Pad<0x20>,
    /// Not understood.
    pub unk_84_state: u32,
    /// Not understood.
    pub unk_88: u32,
    /// Not understood.
    pub unk_8c: u32,
    /// Not understood.
    pub unk_90: u32,
    /// Not understood.
    pub unk_94: u32,
    /// The number of commands submitted and not yet completed.
    pub pending: u32,
    /// Not understood.
    pub unk_9c: u32,
    /// The data of the GPU context that the queue belongs to.
    pub gpu_context: GPUWeakPointer<super::GPUContextData>,
    /// Not understood.
    pub unk_a8: U64,
}

} // verus!
