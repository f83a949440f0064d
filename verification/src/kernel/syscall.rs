//! System-call dispatch: the debug syscalls and capability invocation.
//!
//! The kernel decides here; what touches the machine (printing a byte,
//! zero-filling a new frame, powering off) is returned as an action for the
//! trap loop to carry out.

use vstd::prelude::*;
use crate::common::sal4_syscall::{CAP_INVOKE, DEBUG_PUT_CHAR, DEBUG_SHUTDOWN};
use crate::context::a_index;
use super::cap::{FrameCap, Slot, SlotMemory, cap_wf};
use super::cap::invocation::{handle_cap_invoke, tcb_cap_invoke};
use super::cap::threads::Tcb;

verus! {

/// What the trap loop must do after the kernel handled a trap.
#[derive(Debug, Copy, Clone, PartialEq, Eq, Structural)]
pub enum SyscallAction {
    /// Resume the thread.
    Resume,
    /// Print the byte on the console, then resume the thread.
    PutChar(u8),
    /// Zero-fill the new frame, then resume the thread.
    ZeroFrame(FrameCap),
    /// Power off; `failure` tells whether this is an abnormal shutdown.
    Shutdown { failure: bool },
}

/// What the syscall requested by `tcb` does: the slot memory and the
/// general registers afterwards, and the action left to the trap loop.
///
/// `DEBUG_PUT_CHAR` prints the low byte of `a0` and sets `a0` to 0;
/// `DEBUG_SHUTDOWN` powers off normally; `CAP_INVOKE` invokes a capability
/// and reports its code in `a0`, asking for the new frame, if any, to be
/// zero-filled; any other number powers off abnormally.
pub open spec fn syscall_result(mem: Seq<Slot>, tcb: Tcb) -> (Seq<Slot>, Seq<usize>, SyscallAction) {
    let id = tcb.ctx.arg(7);
    if id == DEBUG_PUT_CHAR {
        (mem, tcb.ctx.x@.update(a_index(0), 0), SyscallAction::PutChar(tcb.ctx.arg(0) as u8))
    } else if id == DEBUG_SHUTDOWN {
        (mem, tcb.ctx.x@, SyscallAction::Shutdown { failure: false })
    } else if id == CAP_INVOKE {
        let (code, m, f) = tcb_cap_invoke(mem, tcb);
        (m, tcb.ctx.x@.update(a_index(0), code), match f {
            Some(frame) => SyscallAction::ZeroFrame(frame),
            None => SyscallAction::Resume,
        })
    } else {
        (mem, tcb.ctx.x@, SyscallAction::Shutdown { failure: true })
    }
}

/// The debug syscalls and unknown numbers: `DEBUG_PUT_CHAR` asks to print
/// exactly the low byte of `a0` (its value modulo 256), sets `a0` to 0 and
/// changes no other register and no slot; `DEBUG_SHUTDOWN` powers off
/// normally and any number other than the three syscalls powers off
/// abnormally, both changing no register and no slot.
pub proof fn lemma_debug_syscalls(mem: Seq<Slot>, tcb: Tcb)
    ensures
        ({
            let (m, x, act) = syscall_result(mem, tcb);
            let id = tcb.ctx.x@[a_index(7)];
            &&& id == DEBUG_PUT_CHAR ==> m == mem
                && (act matches SyscallAction::PutChar(b) && b as int == tcb.ctx.x@[a_index(0)] as int % 256)
                && x.len() == tcb.ctx.x@.len()
                && x[a_index(0)] == 0
                && forall|i: int| 0 <= i < x.len() && i != a_index(0) ==> x[i] == tcb.ctx.x@[i]
            &&& id == DEBUG_SHUTDOWN ==> m == mem && x == tcb.ctx.x@ && act == (SyscallAction::Shutdown { failure: false })
            &&& id != DEBUG_PUT_CHAR && id != DEBUG_SHUTDOWN && id != CAP_INVOKE ==> m == mem && x == tcb.ctx.x@
                && act == (SyscallAction::Shutdown { failure: true })
        }),
{
    let v: usize = tcb.ctx.x@[a_index(0)];
    assert((v as u8) as usize == v % 256) by (bit_vector);
}

/// Handles the syscall whose number is in `a7` of `tcb`.
///
/// `DEBUG_PUT_CHAR` prints the low byte of `a0` and sets `a0` to 0;
/// `DEBUG_SHUTDOWN` powers off normally; `CAP_INVOKE` invokes a capability
/// (see `handle_cap_invoke`); any other number powers off abnormally.
pub fn handle_syscall(tcb: &mut Tcb, mem: &mut SlotMemory) -> (act: SyscallAction)
    requires
        old(mem).wf(),
        cap_wf(old(tcb).cspace_root, old(mem)@.len()),
    ensures
        final(mem).wf(),
        final(tcb).ctx.sepc == old(tcb).ctx.sepc,
        final(tcb).ctx.supervisor == old(tcb).ctx.supervisor,
        final(tcb).ctx.interrupt == old(tcb).ctx.interrupt,
        final(tcb).cspace_root == old(tcb).cspace_root,
        final(tcb).vspace_root == old(tcb).vspace_root,
        final(tcb).state == old(tcb).state,
        (final(mem)@, final(tcb).ctx.x@, act) == syscall_result(old(mem)@, *old(tcb)),
        old(tcb).ctx.arg(7) == DEBUG_PUT_CHAR ==> (act matches SyscallAction::PutChar(b)
            && b as int == old(tcb).ctx.arg(0) as int % 256) && final(tcb).ctx.arg(0) == 0,
        old(tcb).ctx.arg(7) == DEBUG_SHUTDOWN ==> act == (SyscallAction::Shutdown { failure: false }),
{
    proof {
        lemma_debug_syscalls(old(mem)@, *old(tcb));
    }
    let syscall_id = tcb.ctx.a(7);
    if syscall_id == DEBUG_SHUTDOWN || syscall_id == DEBUG_PUT_CHAR {
        handle_debug_syscall(tcb, syscall_id)
    } else if syscall_id == CAP_INVOKE {
        match handle_cap_invoke(tcb, mem) {
            Some(frame) => SyscallAction::ZeroFrame(frame),
            None => SyscallAction::Resume,
        }
    } else {
        SyscallAction::Shutdown { failure: true }
    }
}

/// Handles the two debug syscalls.
fn handle_debug_syscall(tcb: &mut Tcb, syscall_id: usize) -> (act: SyscallAction)
    requires
        syscall_id == DEBUG_PUT_CHAR || syscall_id == DEBUG_SHUTDOWN,
    ensures
        final(tcb).ctx.sepc == old(tcb).ctx.sepc,
        final(tcb).ctx.supervisor == old(tcb).ctx.supervisor,
        final(tcb).ctx.interrupt == old(tcb).ctx.interrupt,
        final(tcb).cspace_root == old(tcb).cspace_root,
        final(tcb).vspace_root == old(tcb).vspace_root,
        final(tcb).state == old(tcb).state,
        syscall_id == DEBUG_PUT_CHAR ==> act == SyscallAction::PutChar(old(tcb).ctx.arg(0) as u8)
            && final(tcb).ctx.x@ == old(tcb).ctx.x@.update(a_index(0), 0),
        syscall_id == DEBUG_SHUTDOWN ==> act == (SyscallAction::Shutdown { failure: false })
            && final(tcb).ctx == old(tcb).ctx,
{
    if syscall_id == DEBUG_PUT_CHAR {
        let c = tcb.ctx.a(0) as u8;
        tcb.ctx.set_a(0, 0);
        SyscallAction::PutChar(c)
    } else {
        SyscallAction::Shutdown { failure: false }
    }
}

} // verus!
