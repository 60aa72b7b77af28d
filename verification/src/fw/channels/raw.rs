//! Layouts of the pointer cells that the firmware shares with the host.

use vstd::prelude::*;
use crate::fw::types::{get_u32, le_bytes, le_u32, lemma_le_roundtrip, put_u32, put_zeros, zeros, Pad};

verus! {

/// The pointer cell of one ring: the read index in its own cache line, then
/// the write index.
#[derive(Debug)]
pub struct ChannelState {
    /// Index of the slot that the consumer reads next.
    pub read_ptr: u32,
    /// Unused bytes.
    pub __pad0: Pad<0x1c>,
    /// Index of the slot that the producer writes next.
    pub write_ptr: u32,
    /// Unused bytes.
    pub __pad1: Pad<0xc>,
}

impl Default for ChannelState {
    fn default() -> (r: Self)
        ensures
            r.read_ptr == 0,
            r.write_ptr == 0,
    {
        ChannelState {
            read_ptr: 0,
            __pad0: Pad::default(),
            write_ptr: 0,
            __pad1: Pad::default(),
        }
    }
}

/// The pointer cell of the firmware control ring, more tightly packed.
#[derive(Debug)]
pub struct FWCtlChannelState {
    /// Index of the slot that the consumer reads next.
    pub read_ptr: u32,
    /// Unused bytes.
    pub __pad0: Pad<0xc>,
    /// Index of the slot that the producer writes next.
    pub write_ptr: u32,
    /// Unused bytes.
    pub __pad1: Pad<0xc>,
}

impl Default for FWCtlChannelState {
    fn default() -> (r: Self)
        ensures
            r.read_ptr == 0,
            r.write_ptr == 0,
    {
        FWCtlChannelState {
            read_ptr: 0,
            __pad0: Pad::default(),
            write_ptr: 0,
            __pad1: Pad::default(),
        }
    }
}

impl ChannelState {
    /// The number of bytes of the cell.
    pub const SIZE: usize = 0x30;

    /// Where in the cell the read index is.
    pub const READ_PTR: usize = 0;

    /// Where in the cell the write index is.
    pub const WRITE_PTR: usize = 0x20;

    /// The bytes of the cell as the firmware sees them: the read index,
    /// 0x1c unused bytes, the write index, 0xc unused bytes.
    pub open spec fn spec_to_bytes(&self) -> Seq<u8> {
        le_bytes(self.read_ptr) + zeros(0x1c) + le_bytes(self.write_ptr) + zeros(0xc)
    }

    /// The cell has `SIZE` bytes, with the read index at `READ_PTR` and the
    /// write index at `WRITE_PTR`.
    pub proof fn lemma_layout(&self)
        ensures
            self.spec_to_bytes().len() == Self::SIZE,
            le_u32(self.spec_to_bytes(), Self::READ_PTR as int) == self.read_ptr,
            le_u32(self.spec_to_bytes(), Self::WRITE_PTR as int) == self.write_ptr,
    {
        lemma_le_roundtrip(
            Seq::empty(),
            self.read_ptr,
            zeros(0x1c) + le_bytes(self.write_ptr) + zeros(0xc),
        );
        lemma_le_roundtrip(le_bytes(self.read_ptr) + zeros(0x1c), self.write_ptr, zeros(0xc));
        assert(Seq::empty() + le_bytes(self.read_ptr) + (zeros(0x1c) + le_bytes(self.write_ptr)
            + zeros(0xc)) =~= self.spec_to_bytes());
    }

    /// Returns the bytes of the cell as the firmware sees them.
    pub fn to_bytes(&self) -> (r: Vec<u8>)
        ensures
            r@ == self.spec_to_bytes(),
            r@.len() == Self::SIZE,
    {
        let mut out: Vec<u8> = Vec::new();
        put_u32(&mut out, self.read_ptr);
        put_zeros(&mut out, 0x1c);
        put_u32(&mut out, self.write_ptr);
        put_zeros(&mut out, 0xc);
        assert(out@ =~= self.spec_to_bytes());
        out
    }

    /// Reads a cell from its bytes: the indices at their places, whatever
    /// the unused bytes hold. `None` where the bytes are not `SIZE` many.
    pub fn from_bytes(bytes: &[u8]) -> (r: Option<ChannelState>)
        ensures
            match r {
                Some(c) => {
                    &&& bytes@.len() == Self::SIZE
                    &&& c.read_ptr == le_u32(bytes@, Self::READ_PTR as int)
                    &&& c.write_ptr == le_u32(bytes@, Self::WRITE_PTR as int)
                },
                None => bytes@.len() != Self::SIZE,
            },
    {
        if bytes.len() != 0x30 {
            return None;
        }
        let mut cell = ChannelState::default();
        cell.read_ptr = get_u32(bytes, 0);
        cell.write_ptr = get_u32(bytes, 0x20);
        Some(cell)
    }
}

impl FWCtlChannelState {
    /// The number of bytes of the cell.
    pub const SIZE: usize = 0x20;

    /// Where in the cell the read index is.
    pub const READ_PTR: usize = 0;

    /// Where in the cell the write index is.
    pub const WRITE_PTR: usize = 0x10;

    /// The bytes of the cell as the firmware sees them: the read index, 0xc
    /// unused bytes, the write index, 0xc unused bytes.
    pub open spec fn spec_to_bytes(&self) -> Seq<u8> {
        le_bytes(self.read_ptr) + zeros(0xc) + le_bytes(self.write_ptr) + zeros(0xc)
    }

    /// The cell has `SIZE` bytes, with the read index at `READ_PTR` and the
    /// write index at `WRITE_PTR`.
    pub proof fn lemma_layout(&self)
        ensures
            self.spec_to_bytes().len() == Self::SIZE,
            le_u32(self.spec_to_bytes(), Self::READ_PTR as int) == self.read_ptr,
            le_u32(self.spec_to_bytes(), Self::WRITE_PTR as int) == self.write_ptr,
    {
        lemma_le_roundtrip(
            Seq::empty(),
            self.read_ptr,
            zeros(0xc) + le_bytes(self.write_ptr) + zeros(0xc),
        );
        lemma_le_roundtrip(le_bytes(self.read_ptr) + zeros(0xc), self.write_ptr, zeros(0xc));
        assert(Seq::empty() + le_bytes(self.read_ptr) + (zeros(0xc) + le_bytes(self.write_ptr)
            + zeros(0xc)) =~= self.spec_to_bytes());
    }

    /// Returns the bytes of the cell as the firmware sees them.
    pub fn to_bytes(&self) -> (r: Vec<u8>)
        ensures
            r@ == self.spec_to_bytes(),
            r@.len() == Self::SIZE,
    {
        let mut out: Vec<u8> = Vec::new();
        put_u32(&mut out, self.read_ptr);
        put_zeros(&mut out, 0xc);
        put_u32(&mut out, self.write_ptr);
        put_zeros(&mut out, 0xc);
        assert(out@ =~= self.spec_to_bytes());
        out
    }

    /// Reads a cell from its bytes: the indices at their places, whatever
    /// the unused bytes hold. `None` where the bytes are not `SIZE` many.
    pub fn from_bytes(bytes: &[u8]) -> (r: Option<FWCtlChannelState>)
        ensures
            match r {
                Some(c) => {
                    &&& bytes@.len() == Self::SIZE
                    &&& c.read_ptr == le_u32(bytes@, Self::READ_PTR as int)
                    &&& c.write_ptr == le_u32(bytes@, Self::WRITE_PTR as int)
                },
                None => bytes@.len() != Self::SIZE,
            },
    {
        if bytes.len() != 0x20 {
            return None;
        }
        let mut cell = FWCtlChannelState::default();
        cell.read_ptr = get_u32(bytes, 0);
        cell.write_ptr = get_u32(bytes, 0x10);
        Some(cell)
    }
}

} // verus!
