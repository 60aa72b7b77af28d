//! Work queues as the firmware sees them.

pub mod raw;

use vstd::prelude::*;
use crate::allocator::SimpleAllocation;
use crate::fw::event::NotifierList;
use crate::object::{GPUArray, GPUObject, GPUStruct, GPUWeakPointer};

verus! {

/// The kinds of command that a work queue can hold.
#[derive(Clone, Copy, Debug, PartialEq, Eq, Structural)]
pub enum CommandType {
    /// Run vertex work.
    RunVertex,
    /// Run fragment work.
    RunFragment,
    /// Run a blit.
    RunBlitter,
    /// Run compute work.
    RunCompute,
    /// Wait for a stamp.
    Barrier,
    /// Set up a buffer manager.
    InitBufferManager,
}

impl CommandType {
    /// The number by which the firmware tells the kind.
    pub open spec fn spec_tag(self) -> u32 {
        match self {
            CommandType::RunVertex => 0,
            CommandType::RunFragment => 1,
            CommandType::RunBlitter => 2,
            CommandType::RunCompute => 3,
            CommandType::Barrier => 4,
            CommandType::InitBufferManager => 6,
        }
    }

    /// Returns the number by which the firmware tells the kind.
    pub fn tag(self) -> (r: u32)
        ensures
            r == self.spec_tag(),
    {
        match self {
            CommandType::RunVertex => 0,
            CommandType::RunFragment => 1,
            CommandType::RunBlitter => 2,
            CommandType::RunCompute => 3,
            CommandType::Barrier => 4,
            CommandType::InitBufferManager => 6,
        }
    }

    /// Returns the kind that `tag` names, or `None` where it names none.
    pub fn from_tag(tag: u32) -> (r: Option<CommandType>)
        ensures
            match r {
                Some(c) => c.spec_tag() == tag,
                None => forall|c: CommandType| c.spec_tag() != tag,
            },
    {
        if tag == 0 {
            Some(CommandType::RunVertex)
        } else if tag == 1 {
            Some(CommandType::RunFragment)
        } else if tag == 2 {
            Some(CommandType::RunBlitter)
        } else if tag == 3 {
            Some(CommandType::RunCompute)
        } else if tag == 4 {
            Some(CommandType::Barrier)
        } else if tag == 6 {
            Some(CommandType::InitBufferManager)
        } else {
            None
        }
    }
}

/// A host value whose firmware layout is a command.
pub trait Command: GPUStruct {

}

/// The host's side of a barrier command: nothing beyond the layout.
#[derive(Debug, Default)]
pub struct Barrier {}

impl GPUStruct for Barrier {
    type Raw = raw::Barrier;
}

impl Command for Barrier {

}

/// The host's side of the context data: nothing beyond the layout.
#[derive(Debug, Default)]
pub struct GPUContextData {}

impl GPUStruct for GPUContextData {
    type Raw = raw::GPUContextData;
}

/// The host's side of the pointer cells: nothing beyond the layout.
#[derive(Debug, Default)]
pub struct RingState {}

impl GPUStruct for RingState {
    type Raw = raw::RingState;
}

/// The host's side of a work queue: the objects that the firmware's layout
/// points to, kept alive as long as the layout.
pub struct QueueInfo {
    /// The pointer cells of the ring.
    pub state: GPUObject<RingState, SimpleAllocation<RingState>>,
    /// The slots of the ring.
    pub ring: GPUArray<u64, SimpleAllocation<u64>>,
    /// The list of whom to notify.
    pub notifier_list: GPUWeakPointer<NotifierList>,
    /// A buffer for the firmware's own use.
    pub gpu_buf: GPUArray<u8, SimpleAllocation<u8>>,
    /// The data of the GPU context that the queue belongs to.
    pub gpu_context: GPUObject<GPUContextData, SimpleAllocation<GPUContextData>>,
}

impl GPUStruct for QueueInfo {
    type Raw = raw::QueueInfo;
}

} // verus!
