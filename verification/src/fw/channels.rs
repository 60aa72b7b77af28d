//! Communication channels between host and firmware: the pointer cells of
//! their rings and the messages that the rings carry.

pub mod raw;

use vstd::prelude::*;
use crate::fw::types::Array;
use crate::object::GPUStruct;

verus! {

/// The most sub-channels that one receive channel can have.
pub const MAX_SUB_CHANNELS: usize = 6;

/// The pointer cells of a ring on which the firmware sends and the host
/// receives. One state can hold the cells of several sub-channels.
///
/// The host reads the write index and sets the read index; the firmware
/// does the reverse.
pub trait RXChannelState: GPUStruct + Default {
    /// The number of sub-channels.
    spec fn sub_channels() -> nat;

    /// The read index of sub-channel `index`.
    spec fn spec_rptr(raw: Self::Raw, index: int) -> u32;

    /// The write index of sub-channel `index`.
    spec fn spec_wptr(raw: Self::Raw, index: int) -> u32;

    /// There is at least one sub-channel, and no more than a channel can
    /// follow.
    proof fn lemma_sub_channels()
        ensures
            0 < Self::sub_channels() <= MAX_SUB_CHANNELS,
    ;

    /// Returns the number of sub-channels.
    fn num_sub_channels() -> (r: usize)
        ensures
            r == Self::sub_channels(),
    ;

    /// Makes the cells of rings that hold nothing: every index is 0.
    fn fresh() -> (r: Self::Raw)
        ensures
            forall|i: int|
                0 <= i < Self::sub_channels() ==> Self::spec_rptr(r, i) == 0 && Self::spec_wptr(
                    r,
                    i,
                ) == 0,
    ;

    /// The host's read of the write index of sub-channel `index`.
    fn wptr(raw: &Self::Raw, index: usize) -> (r: u32)
        requires
            index < Self::sub_channels(),
        ensures
            r == Self::spec_wptr(*raw, index as int),
    ;

    /// The host's publication of the read index of sub-channel `index`. No
    /// other index changes.
    fn set_rptr(raw: &mut Self::Raw, index: usize, rptr: u32)
        requires
            index < Self::sub_channels(),
        ensures
            Self::spec_rptr(*final(raw), index as int) == rptr,
            forall|i: int|
                0 <= i < Self::sub_channels() && i != index ==> Self::spec_rptr(*final(raw), i)
                    == Self::spec_rptr(*old(raw), i),
            forall|i: int|
                0 <= i < Self::sub_channels() ==> Self::spec_wptr(*final(raw), i)
                    == Self::spec_wptr(*old(raw), i),
    ;

    /// The firmware's read of the read index of sub-channel `index`.
    fn rptr(raw: &Self::Raw, index: usize) -> (r: u32)
        requires
            index < Self::sub_channels(),
        ensures
            r == Self::spec_rptr(*raw, index as int),
    ;

    /// The firmware's publication of the write index of sub-channel `index`.
    /// No other index changes.
    fn set_wptr(raw: &mut Self::Raw, index: usize, wptr: u32)
        requires
            index < Self::sub_channels(),
        ensures
            Self::spec_wptr(*final(raw), index as int) == wptr,
            forall|i: int|
                0 <= i < Self::sub_channels() && i != index ==> Self::spec_wptr(*final(raw), i)
                    == Self::spec_wptr(*old(raw), i),
            forall|i: int|
                0 <= i < Self::sub_channels() ==> Self::spec_rptr(*final(raw), i)
                    == Self::spec_rptr(*old(raw), i),
    ;
}

/// The pointer cell of a ring on which the host sends and the firmware
/// receives.
///
/// The host reads the read index and sets the write index; the firmware
/// does the reverse.
pub trait TXChannelState: GPUStruct + Default {
    /// The read index.
    spec fn spec_rptr(raw: Self::Raw) -> u32;

    /// The write index.
    spec fn spec_wptr(raw: Self::Raw) -> u32;

    /// Makes the cell of a ring that holds nothing: both indices are 0.
    fn fresh() -> (r: Self::Raw)
        ensures
            Self::spec_rptr(r) == 0,
            Self::spec_wptr(r) == 0,
    ;

    /// The host's read of the read index.
    fn rptr(raw: &Self::Raw) -> (r: u32)
        ensures
            r == Self::spec_rptr(*raw),
    ;

    /// The host's publication of the write index. The read index stays.
    fn set_wptr(raw: &mut Self::Raw, wptr: u32)
        ensures
            Self::spec_wptr(*final(raw)) == wptr,
            Self::spec_rptr(*final(raw)) == Self::spec_rptr(*old(raw)),
    ;

    /// The firmware's read of the write index.
    fn wptr(raw: &Self::Raw) -> (r: u32)
        ensures
            r == Self::spec_wptr(*raw),
    ;

    /// The firmware's publication of the read index. The write index stays.
    fn set_rptr(raw: &mut Self::Raw, rptr: u32)
        ensures
            Self::spec_rptr(*final(raw)) == rptr,
            Self::spec_wptr(*final(raw)) == Self::spec_wptr(*old(raw)),
    ;
}

/// The state of a ring with one pointer cell.
#[derive(Debug, Default)]
pub struct ChannelState {}

impl GPUStruct for ChannelState {
    type Raw = raw::ChannelState;
}

impl RXChannelState for ChannelState {
    open spec fn sub_channels() -> nat {
        1
    }

    open spec fn spec_rptr(raw: raw::ChannelState, index: int) -> u32 {
        raw.read_ptr
    }

    open spec fn spec_wptr(raw: raw::ChannelState, index: int) -> u32 {
        raw.write_ptr
    }

    proof fn lemma_sub_channels() {
    }

    fn num_sub_channels() -> (r: usize) {
        1
    }

    fn fresh() -> (r: raw::ChannelState) {
        raw::ChannelState::default()
    }

    fn wptr(raw: &raw::ChannelState, index: usize) -> (r: u32) {
        raw.write_ptr
    }

    fn set_rptr(raw: &mut raw::ChannelState, index: usize, rptr: u32) {
        raw.read_ptr = rptr;
    }

    fn rptr(raw: &raw::ChannelState, index: usize) -> (r: u32) {
        raw.read_ptr
    }

    fn set_wptr(raw: &mut raw::ChannelState, index: usize, wptr: u32) {
        raw.write_ptr = wptr;
    }
}

impl TXChannelState for ChannelState {
    open spec fn spec_rptr(raw: raw::ChannelState) -> u32 {
        raw.read_ptr
    }

    open spec fn spec_wptr(raw: raw::ChannelState) -> u32 {
        raw.write_ptr
    }

    fn fresh() -> (r: raw::ChannelState) {
        raw::ChannelState::default()
    }

    fn rptr(raw: &raw::ChannelState) -> (r: u32) {
        raw.read_ptr
    }

    fn set_wptr(raw: &mut raw::ChannelState, wptr: u32) {
        raw.write_ptr = wptr;
    }

    fn wptr(raw: &raw::ChannelState) -> (r: u32) {
        raw.write_ptr
    }

    fn set_rptr(raw: &mut raw::ChannelState, rptr: u32) {
        raw.read_ptr = rptr;
    }
}

/// The state of the firmware log channel: six sub-channels, one pointer
/// cell each.
#[derive(Debug, Default)]
pub struct FWLogChannelState {}

impl FWLogChannelState {
    /// The number of sub-channels of the firmware log.
    pub const SUB_CHANNELS: usize = 6;
}

impl GPUStruct for FWLogChannelState {
    type Raw = Array<6, raw::ChannelState>;
}

impl RXChannelState for FWLogChannelState {
    open spec fn sub_channels() -> nat {
        6
    }

    open spec fn spec_rptr(raw: Array<6, raw::ChannelState>, index: int) -> u32 {
        raw@[index].read_ptr
    }

    open spec fn spec_wptr(raw: Array<6, raw::ChannelState>, index: int) -> u32 {
        raw@[index].write_ptr
    }

    proof fn lemma_sub_channels() {
    }

    fn num_sub_channels() -> (r: usize) {
        6
    }

    fn fresh() -> (r: Array<6, raw::ChannelState>) {
        Array::new(
            [
                raw::ChannelState::default(),
                raw::ChannelState::default(),
                raw::ChannelState::default(),
                raw::ChannelState::default(),
                raw::ChannelState::default(),
                raw::ChannelState::default(),
            ],
        )
    }

    fn wptr(raw: &Array<6, raw::ChannelState>, index: usize) -> (r: u32) {
        raw.index(index).write_ptr
    }

    fn set_rptr(raw: &mut Array<6, raw::ChannelState>, index: usize, rptr: u32) {
        let cell = raw.index_mut(index);
        cell.read_ptr = rptr;
    }

    fn rptr(raw: &Array<6, raw::ChannelState>, index: usize) -> (r: u32) {
        raw.index(index).read_ptr
    }

    fn set_wptr(raw: &mut Array<6, raw::ChannelState>, index: usize, wptr: u32) {
        let cell = raw.index_mut(index);
        cell.write_ptr = wptr;
    }
}

/// The state of the firmware control channel.
#[derive(Debug, Default)]
pub struct FWCtlChannelState {}

impl GPUStruct for FWCtlChannelState {
    type Raw = raw::FWCtlChannelState;
}

impl TXChannelState for FWCtlChannelState {
    open spec fn spec_rptr(raw: raw::FWCtlChannelState) -> u32 {
        raw.read_ptr
    }

    open spec fn spec_wptr(raw: raw::FWCtlChannelState) -> u32 {
        raw.write_ptr
    }

    fn fresh() -> (r: raw::FWCtlChannelState) {
        raw::FWCtlChannelState::default()
    }

    fn rptr(raw: &raw::FWCtlChannelState) -> (r: u32) {
        raw.read_ptr
    }

    fn set_wptr(raw: &mut raw::FWCtlChannelState, wptr: u32) {
        raw.write_ptr = wptr;
    }

    fn wptr(raw: &raw::FWCtlChannelState) -> (r: u32) {
        raw.write_ptr
    }

    fn set_rptr(raw: &mut raw::FWCtlChannelState, rptr: u32) {
        raw.read_ptr = rptr;
    }
}

/// A request to run a command queue.
pub type RunCmdQueueMsg = Array<0x30, u8>;

/// A message on a pipe channel.
pub type PipeMsg = Array<0x30, u8>;

/// A device control message.
pub type DeviceControlMsg = Array<0x30, u8>;

/// An event message.
pub type RawEventMsg = Array<0x38, u8>;

/// A firmware log message.
pub type RawFWLogMsg = Array<0xd8, u8>;

/// A kernel trace message.
pub type RawKTraceMsg = Array<0x38, u8>;

/// A statistics message.
pub type RawStatsMsg = Array<0x60, u8>;

/// A firmware control message.
pub type FWCtlMsg = Array<0x14, u8>;

/// The pipelines of the GPU, each with channels of its own.
#[derive(Clone, Copy, Debug, PartialEq, Eq, Structural)]
pub enum PipeType {
    /// Vertex work.
    Vertex,
    /// Fragment work.
    Fragment,
    /// Compute work.
    Compute,
}

impl PipeType {
    /// The number by which the firmware knows the pipeline.
    pub open spec fn spec_index(self) -> u64 {
        match self {
            PipeType::Vertex => 0,
            PipeType::Fragment => 1,
            PipeType::Compute => 2,
        }
    }

    /// Returns the number by which the firmware knows the pipeline.
    pub fn index(self) -> (r: u64)
        ensures
            r == self.spec_index(),
    {
        match self {
            PipeType::Vertex => 0,
            PipeType::Fragment => 1,
            PipeType::Compute => 2,
        }
    }
}

} // verus!
