//! What the host knows of the hardware it drives.

use vstd::prelude::*;

verus! {

/// A range of device registers that the firmware needs mapped.
#[derive(Clone, Copy, Debug, PartialEq, Eq, Structural)]
pub struct IOMapping {
    /// The physical address of the first register.
    pub base: usize,
    /// The number of bytes of the range.
    pub size: usize,
    /// The number of bytes of one unit of the range.
    pub range_size: usize,
    /// Whether the firmware writes to the range.
    pub writable: bool,
}

/// The configuration of one kind of GPU.
pub struct HWConfig {
    /// The ranges of device registers that the firmware needs, by the
    /// number under which the firmware knows each.
    pub io_mappings: Vec<Option<IOMapping>>,
    /// The last tag of a statistics message that the firmware of this GPU
    /// sends.
    pub stats_max: u32,
}

} // verus!
