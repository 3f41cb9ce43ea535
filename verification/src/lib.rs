//! Core of a small 64-bit x86 kernel: virtual address-space construction,
//! privilege-transition bookkeeping, a task model, a virtual filesystem with
//! an in-memory driver, and a POSIX-style syscall surface.
//!
//! Everything hardware does on the kernel's behalf (port I/O, privileged
//! registers, the ring-transition stubs) lives outside this crate; the crate
//! holds the decisions and data structures, each with a proved contract.

pub mod allocator;
pub mod cpuid;
pub mod fs;
pub mod gdt;
pub mod interrupt_idx;
pub mod logging;
pub mod memory;
pub mod serial;
pub mod syscall;
pub mod task;
pub mod time;
pub mod types;
pub mod userspace;
