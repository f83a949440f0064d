//! Syscall numbers of the kernel's system-call ABI (placed in `a7`).

use vstd::prelude::*;

verus! {

/// Debug-only syscall: output one byte (`a0`) to the kernel console.
pub const DEBUG_PUT_CHAR: usize = 1;

/// Debug-only syscall: terminate the machine through the kernel.
pub const DEBUG_SHUTDOWN: usize = 2;

/// Capability invocation: `a0` = service cptr, `a1` = label, `a2..a5` = arguments.
pub const CAP_INVOKE: usize = 16;

} // verus!
