//! What the driver does to the coprocessor that runs the firmware.

use vstd::prelude::*;

verus! {

/// The number of bytes of the coprocessor's control registers.
pub const ASC_CTL_SIZE: usize = 0x4000;

/// Where among the control registers the CPU control register is.
pub const CPU_CONTROL: usize = 0x44;

/// The bit of the CPU control register that lets the CPU run.
pub const CPU_RUN: u32 = 0x10;

/// The driver of the GPU.
pub struct AsahiDriver;

impl AsahiDriver {
    /// Returns what to write to the CPU control register to start the
    /// coprocessor, where the register holds `val`: the run bit is set and
    /// every other bit stays.
    pub fn start_cpu(val: u32) -> (r: u32)
        ensures
            r == val | CPU_RUN,
            r & CPU_RUN == CPU_RUN,
            r & !CPU_RUN == val & !CPU_RUN,
    {
        assert((val | 0x10) & 0x10 == 0x10 && (val | 0x10) & !0x10u32 == val & !0x10u32)
            by (bit_vector);
        val | CPU_RUN
    }
}

} // verus!
