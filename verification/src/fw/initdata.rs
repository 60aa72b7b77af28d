//! What the firmware is told once, when it starts.

pub mod raw;

use vstd::prelude::*;
use crate::allocator::SimpleAllocation;
use crate::object::{GPUArray, GPUObject, GPUStruct};

verus! {

/// The most ranges of device registers that the firmware can be told of.
pub const NUM_IO_MAPPINGS: usize = 0x14;

/// A ring in shared memory: its pointer cells and its slots.
pub struct ChannelRing<T: GPUStruct, U> {
    /// The pointer cells.
    pub state: GPUObject<T, SimpleAllocation<T>>,
    /// The slots.
    pub ring: GPUArray<U, SimpleAllocation<U>>,
}

impl<T: GPUStruct, U> ChannelRing<T, U> {
    /// Both parts are well formed.
    pub open spec fn wf(&self) -> bool {
        self.state.wf() && self.ring.wf()
    }

    /// Returns where the firmware finds the two parts.
    pub fn to_raw(&self) -> (r: raw::ChannelRing<T, U>)
        requires
            self.wf(),
        ensures
            r.state.spec_addr() == self.state.spec_gpu_va(),
            r.ring.spec_addr() == self.ring.spec_gpu_va(),
    {
        raw::ChannelRing { state: self.state.weak_pointer(), ring: self.ring.weak_pointer() }
    }
}

/// The host's side of the ranges of device registers: nothing beyond the
/// layout.
#[derive(Debug, Default)]
pub struct HwDataB {}

impl GPUStruct for HwDataB {
    type Raw = raw::HwDataB;
}

/// The host's side of the runtime pointers: the objects that the layout
/// points to.
pub struct RuntimePointers {
    /// The ranges of device registers.
    pub hwdata_b: GPUObject<HwDataB, SimpleAllocation<HwDataB>>,
}

impl GPUStruct for RuntimePointers {
    type Raw = raw::RuntimePointers;
}

/// The host's side of what the firmware is handed when it starts: the
/// objects that the layout points to.
pub struct InitData {
    /// Where the firmware finds what it works with while it runs.
    pub runtime_pointers: GPUObject<RuntimePointers, SimpleAllocation<RuntimePointers>>,
}

impl GPUStruct for InitData {
    type Raw = raw::InitData;
}

} // verus!
