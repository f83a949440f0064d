//! Verified model of the sal4 capability microkernel: the boot-time
//! capability handoff, capability-pointer resolution, untyped retype and the
//! syscall decisions of the kernel, together with the rootserver-side helpers
//! and the shared boot ABI.

pub mod config;
pub mod common;
pub mod context;
pub mod arith;
pub mod kernel;
pub mod rootserver;
pub mod handoff;
pub mod null_kernel;
