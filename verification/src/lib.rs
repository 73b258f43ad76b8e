//! Early-boot physical-memory management for a single-hart RISC-V kernel:
//! segment zeroing, usable-region computation from firmware-reported memory,
//! a page-frame allocator with ownership-scoped handles, and the pure parts
//! of hardware discovery (device-tree queries, real-time-clock conversion).

pub mod boot;
pub mod clock;
pub mod dtb;
pub mod discovery;
pub mod frame;
