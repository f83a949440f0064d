//! Tasks of the null kernel.

use vstd::prelude::*;
use crate::context::UserContext;
use super::cap::CSpace;

verus! {

/// A task: its identity, liveness, saved registers and capability space.
pub struct Tcb {
    pub id: usize,
    pub alive: bool,
    pub ctx: UserContext,
    pub cspace: CSpace,
    /// The badge the task's write endpoint must carry.
    pub write_badge: usize,
}

impl Tcb {
    /// A live task entering user mode at `entry` with stack pointer `sp`,
    /// holding the null-kernel capability space for `badge`.
    pub fn new(id: usize, entry: usize, sp: usize, badge: usize) -> (t: Tcb)
        ensures
            t.id == id,
            t.alive,
            t.ctx.sepc == entry,
            !t.ctx.supervisor,
            t.ctx.interrupt,
            t.ctx.stack_pointer() == sp,
            forall|i: int| 0 <= i < 31 && i != 1 ==> t.ctx.x@[i] == 0,
            t.cspace.slots@ == CSpace::spec_for_null_kernel(badge),
            t.write_badge == badge,
    {
        let mut ctx = UserContext::user(entry);
        ctx.set_sp(sp);
        Tcb { id, alive: true, ctx, cspace: CSpace::for_null_kernel(badge), write_badge: badge }
    }
}

} // verus!
