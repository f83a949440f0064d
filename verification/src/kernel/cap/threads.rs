//! Thread control blocks.

use vstd::prelude::*;
use crate::context::UserContext;
use super::Capability;

verus! {

/// A thread control block: saved registers, roots and scheduling state.
pub struct Tcb {
    /// The thread's saved register file.
    pub ctx: UserContext,
    /// Root of the thread's capability space.
    pub cspace_root: Capability,
    /// Root of the thread's address space.
    pub vspace_root: Capability,
    /// Scheduling state.
    pub state: ThreadState,
}

impl Tcb {
    /// An inactive thread with zeroed registers and null roots.
    pub fn empty() -> (t: Tcb)
        ensures
            forall|i: int| 0 <= i < 31 ==> t.ctx.x@[i] == 0,
            t.ctx.sepc == 0,
            !t.ctx.supervisor,
            !t.ctx.interrupt,
            t.cspace_root is Null,
            t.vspace_root is Null,
            t.state == ThreadState::Inactive,
    {
        Tcb {
            ctx: UserContext::empty(),
            cspace_root: Capability::Null,
            vspace_root: Capability::Null,
            state: ThreadState::Inactive,
        }
    }
}

/// Scheduling state of a thread.
#[derive(Debug, Copy, Clone, PartialEq, Eq, Structural)]
pub enum ThreadState {
    Inactive,
    Running,
    BlockedOnReceive,
    BlockedOnSend,
}

} // verus!
