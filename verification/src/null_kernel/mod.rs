//! The null kernel: a flat per-task capability space, badge
//! checked syscall gating, and the single-level-at-a-time cnode walk.

pub mod cap;
pub mod threads;
pub mod utils;
pub mod syscall_gate;
pub mod impls;
