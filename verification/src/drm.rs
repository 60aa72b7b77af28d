//! The host system's graphics memory layer, as far as the driver builds on
//! it.

pub mod gem;
pub mod private;
