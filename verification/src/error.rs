//! Error conditions reported by the coordination core.

use vstd::prelude::*;

verus! {

/// Why an operation could not be carried out.
#[derive(Clone, Copy, Debug, PartialEq, Eq, Structural)]
pub enum Error {
    /// No memory is left, or a region is too small for what it should hold.
    NoMemory,
    /// An argument is not acceptable: a null GPU address, a bad alignment,
    /// a construction callback that answered for the wrong place.
    InvalidArgument,
    /// The resource is in use: a mapped object, a full ring, an exhausted pool.
    Busy,
    /// The address space has no room for the request.
    NoSpace,
    /// The firmware has not answered for too long: the device hangs.
    TimedOut,
}

impl Error {
    /// The number under which the host system knows this condition.
    pub open spec fn spec_errno(self) -> i32 {
        match self {
            Error::NoMemory => 12,
            Error::InvalidArgument => 22,
            Error::Busy => 16,
            Error::NoSpace => 28,
            Error::TimedOut => 110,
        }
    }

    /// Returns the host system's number for this condition.
    pub fn errno(self) -> (r: i32)
        ensures
            r == self.spec_errno(),
    {
        match self {
            Error::NoMemory => 12,
            Error::InvalidArgument => 22,
            Error::Busy => 16,
            Error::NoSpace => 28,
            Error::TimedOut => 110,
        }
    }
}

} // verus!
