//! A capability-based microkernel core in the spirit of the seL4 family.
//!
//! The crate models the four central subsystems of such a kernel over plain
//! data: capability encodings and the capability space (a guarded-radix
//! lookup tree plus the derivation chain used by revoke), untyped retype,
//! a four-level page-table manager, synchronous IPC endpoints, and a
//! per-core earliest-deadline-first scheduler.  Slots, thread control
//! blocks and page tables live in index-addressed arenas, which stand in
//! for the physical memory the kernel itself would walk with raw pointers.

pub mod capability;
pub mod cnode;
pub mod cspace;
pub mod endpoint;
pub mod error;
pub mod frame;
pub mod nullcap;
pub mod ptable;
pub mod scheduler;
pub mod syscall;
pub mod tcb;
pub mod untyped;
pub mod vspace;
