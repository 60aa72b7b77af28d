//! Firmware-visible data structures.

pub mod channels;
pub mod event;
pub mod initdata;
pub mod types;
pub mod workqueue;
