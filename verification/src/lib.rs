//! The decision logic of the Tyr GPU driver and of the kernel services it
//! leans on: hardware slots and address spaces, GPU reset, wound-wait mutexes,
//! scoped work items and system memory mappings.
//!
//! Nothing in this library touches hardware, blocks or allocates kernel
//! objects. Where such a step is due, a function hands back a description of
//! the step, and another function takes what the step came to.

pub mod error;
pub mod iosys_map;
pub mod sync;
pub mod tyr;
pub mod workqueue;
