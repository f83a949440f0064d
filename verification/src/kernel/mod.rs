//! The capability microkernel: capabilities and the cnode slot memory,
//! capability-pointer resolution, capability invocation, thread control
//! blocks, the boot-time handoff to the rootserver and the syscall decisions.

pub mod cap;
pub mod boot;
pub mod syscall;
