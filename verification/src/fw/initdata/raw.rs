//! Layouts of what the firmware is told when it starts.

use vstd::prelude::*;
use crate::fw::channels::{
    ChannelState, DeviceControlMsg, FWLogChannelState, PipeMsg, RawEventMsg, RawFWLogMsg,
    RawKTraceMsg, RawStatsMsg,
};
use crate::object::{GPUStruct, GPUWeakPointer};

verus! {

/// Where the firmware finds a ring: its pointer cells and its slots.
pub struct ChannelRing<T: GPUStruct, U> {
    /// Address of the pointer cells.
    pub state: GPUWeakPointer<T>,
    /// Address of the first slot.
    pub ring: GPUWeakPointer<Vec<U>>,
}

/// Where the firmware finds the channels of one set of pipelines.
pub struct PipeChannels {
    /// The channel of the vertex pipeline.
    pub vtx: ChannelRing<ChannelState, PipeMsg>,
    /// The channel of the fragment pipeline.
    pub frag: ChannelRing<ChannelState, PipeMsg>,
    /// The channel of the compute pipeline.
    pub comp: ChannelRing<ChannelState, PipeMsg>,
}

/// A range of device registers as the firmware is told of it.
#[derive(Clone, Copy, Debug, PartialEq, Eq, Structural)]
pub struct IOMapping {
    /// The physical address of the first register.
    pub phys_addr: u64,
    /// The GPU virtual address of the first register.
    pub virt_addr: u64,
    /// The number of bytes of the range.
    pub size: u32,
    /// The number of bytes of one unit of the range.
    pub range_size: u32,
    /// 1 where the firmware writes to the range, else 0.
    pub readwrite: u64,
}

/// The ranges of device registers that the firmware is told of. A range
/// that was never mapped is `None`.
#[derive(Debug)]
pub struct HwDataB {
    /// The ranges, by the number under which the firmware knows each.
    pub io_mappings: Vec<Option<IOMapping>>,
}

/// Where the firmware finds what it works with while it runs. A channel
/// that is not set up yet is `None`.
pub struct RuntimePointers {
    /// The channels of the pipelines, set by set.
    pub pipes: Vec<PipeChannels>,
    /// The device control channel.
    pub device_control: Option<ChannelRing<ChannelState, DeviceControlMsg>>,
    /// The event channel.
    pub event: Option<ChannelRing<ChannelState, RawEventMsg>>,
    /// The firmware log channel.
    pub fw_log: Option<ChannelRing<FWLogChannelState, RawFWLogMsg>>,
    /// The kernel trace channel.
    pub ktrace: Option<ChannelRing<ChannelState, RawKTraceMsg>>,
    /// The statistics channel.
    pub stats: Option<ChannelRing<ChannelState, RawStatsMsg>>,
    /// The ranges of device registers.
    pub hwdata_b: GPUWeakPointer<super::HwDataB>,
}

/// What the firmware is handed when it starts.
pub struct InitData {
    /// Where the firmware finds what it works with while it runs.
    pub runtime_pointers: GPUWeakPointer<super::RuntimePointers>,
}

} // verus!
