//! Firmware coordination core of a GPU driver: shared-object allocation,
//! typed firmware objects, ring channels, event slots and work queues.

pub mod allocator;
pub mod channel;
pub mod driver;
pub mod drm;
pub mod error;
pub mod event;
pub mod fw;
pub mod gem;
pub mod gpu;
pub mod hw;
pub mod mmu;
pub mod object;
pub mod ring;
pub mod slotalloc;
pub mod workqueue;
