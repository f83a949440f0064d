//! The saved user register file of a thread.
//!
//! It holds the values that the kernel reads and writes of a trapped
//! thread: the general registers `x1..x31`, the resume pc (`sepc`) and the
//! privilege / interrupt flags used when the thread is resumed.

use vstd::prelude::*;

verus! {

/// The saved register file of a thread.
#[derive(Copy, Clone)]
pub struct UserContext {
    /// General registers `x1..x31` (`x0` is always zero and not stored).
    pub x: [usize; 31],
    /// The pc at which the thread resumes.
    pub sepc: usize,
    /// Whether the thread runs in supervisor mode.
    pub supervisor: bool,
    /// Whether interrupts are enabled while the thread runs.
    pub interrupt: bool,
}

/// Register `a{n}` is `x{n + 10}`, stored at index `n + 9`.
pub open spec fn a_index(n: int) -> int {
    n + 9
}

impl UserContext {
    /// Argument register `a{n}` as a spec value.
    pub open spec fn arg(&self, n: int) -> usize {
        self.x@[a_index(n)]
    }

    /// The stack pointer (`x2`) as a spec value.
    pub open spec fn stack_pointer(&self) -> usize {
        self.x@[1]
    }

    /// All registers are zero, user mode, interrupts off, pc zero.
    pub fn empty() -> (c: UserContext)
        ensures
            forall|i: int| 0 <= i < 31 ==> c.x@[i] == 0,
            c.sepc == 0,
            !c.supervisor,
            !c.interrupt,
    {
        UserContext { x: [0usize; 31], sepc: 0, supervisor: false, interrupt: false }
    }

    /// A fresh user-mode context entering at `pc` with interrupts enabled.
    pub fn user(pc: usize) -> (c: UserContext)
        ensures
            forall|i: int| 0 <= i < 31 ==> c.x@[i] == 0,
            c.sepc == pc,
            !c.supervisor,
            c.interrupt,
    {
        UserContext { x: [0usize; 31], sepc: pc, supervisor: false, interrupt: true }
    }

    /// Reads argument register `a{n}`.
    pub fn a(&self, n: usize) -> (v: usize)
        requires
            n <= 21,
        ensures
            v == self.arg(n as int),
    {
        self.x[n + 9]
    }

    /// Writes argument register `a{n}`; every other register is unchanged.
    pub fn set_a(&mut self, n: usize, v: usize)
        requires
            n <= 21,
        ensures
            final(self).x@ == old(self).x@.update(a_index(n as int), v),
            final(self).sepc == old(self).sepc,
            final(self).supervisor == old(self).supervisor,
            final(self).interrupt == old(self).interrupt,
    {
        self.x[n + 9] = v;
    }

    /// The stack pointer.
    pub fn sp(&self) -> (v: usize)
        ensures
            v == self.stack_pointer(),
    {
        self.x[1]
    }

    /// Writes the stack pointer; every other register is unchanged.
    pub fn set_sp(&mut self, v: usize)
        ensures
            final(self).x@ == old(self).x@.update(1, v),
            final(self).sepc == old(self).sepc,
            final(self).supervisor == old(self).supervisor,
            final(self).interrupt == old(self).interrupt,
    {
        self.x[1] = v;
    }

    /// The resume pc.
    pub fn pc(&self) -> (v: usize)
        ensures
            v == self.sepc,
    {
        self.sepc
    }

    /// Moves the resume pc past the (uncompressed) trapping instruction.
    pub fn move_next(&mut self)
        ensures
            final(self).sepc == (if old(self).sepc + 4 > usize::MAX {
                old(self).sepc + 4 - (usize::MAX + 1)
            } else {
                old(self).sepc + 4
            }),
            final(self).x == old(self).x,
            final(self).supervisor == old(self).supervisor,
            final(self).interrupt == old(self).interrupt,
    {
        self.sepc = self.sepc.wrapping_add(4);
    }
}

} // verus!
