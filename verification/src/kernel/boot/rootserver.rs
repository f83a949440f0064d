//! The rootserver image, its initial thread context and the handling of its
//! traps.

use vstd::prelude::*;
use crate::config::ROOTSERVER_STACK_SIZE;
use crate::context::{UserContext, a_index};
use crate::kernel::cap::{SlotMemory, cap_wf};
use crate::kernel::cap::threads::{Tcb, ThreadState};
use crate::kernel::syscall::{SyscallAction, handle_syscall, syscall_result};

verus! {

/// Where the rootserver image was loaded: `[start, end)`.
#[derive(Debug, Copy, Clone)]
pub struct RootserverImage {
    pub start: usize,
    pub end: usize,
}

impl RootserverImage {
    /// Length of the image in bytes.
    pub fn size(&self) -> (s: usize)
        requires
            self.start <= self.end,
        ensures
            s == self.end - self.start,
    {
        self.end - self.start
    }
}

/// The user context the rootserver starts in: entry at the image start,
/// stack pointer at the top of its stack page, `a0` = BootInfo address,
/// `a1` = IPC buffer address, every other register zero.
pub open spec fn rootserver_context_ok(ctx: UserContext, image: RootserverImage, stack_paddr: nat, bootinfo_paddr: usize, ipc_buffer_paddr: usize) -> bool {
    &&& ctx.sepc == image.start
    &&& !ctx.supervisor
    &&& ctx.interrupt
    &&& ctx.stack_pointer() == stack_paddr + ROOTSERVER_STACK_SIZE
    &&& ctx.arg(0) == bootinfo_paddr
    &&& ctx.arg(1) == ipc_buffer_paddr
    &&& forall|i: int| 0 <= i < 31 && i != 1 && i != a_index(0) && i != a_index(1) ==> ctx.x@[i] == 0
}

/// Sets up the root thread to enter the rootserver image in user mode.
pub fn prepare_rootserver_context(
    tcb: &mut Tcb,
    image: RootserverImage,
    stack_paddr: usize,
    bootinfo_paddr: usize,
    ipc_buffer_paddr: usize,
)
    requires
        stack_paddr + ROOTSERVER_STACK_SIZE <= usize::MAX,
    ensures
        rootserver_context_ok(final(tcb).ctx, image, stack_paddr as nat, bootinfo_paddr, ipc_buffer_paddr),
        final(tcb).state == ThreadState::Running,
        final(tcb).cspace_root == old(tcb).cspace_root,
        final(tcb).vspace_root == old(tcb).vspace_root,
{
    let mut ctx = UserContext::user(image.start);
    ctx.set_sp(stack_paddr + ROOTSERVER_STACK_SIZE);
    ctx.set_a(0, bootinfo_paddr);
    ctx.set_a(1, ipc_buffer_paddr);
    tcb.ctx = ctx;
    tcb.state = ThreadState::Running;
}

/// Why the rootserver trapped into the kernel.
#[derive(Debug, Copy, Clone, PartialEq, Eq, Structural)]
pub enum TrapCause {
    /// An `ecall` from user mode.
    UserEnvCall,
    /// Any other exception.
    Exception,
    /// An interrupt.
    Interrupt,
}

/// Handles one trap of the rootserver: an `ecall` moves the pc past the
/// instruction and is handled as a syscall; any other trap powers off
/// abnormally.
pub fn handle_rootserver_trap(tcb: &mut Tcb, mem: &mut SlotMemory, cause: TrapCause) -> (act: SyscallAction)
    requires
        old(mem).wf(),
        cap_wf(old(tcb).cspace_root, old(mem)@.len()),
    ensures
        final(mem).wf(),
        final(tcb).cspace_root == old(tcb).cspace_root,
        cause != TrapCause::UserEnvCall ==> act == (SyscallAction::Shutdown { failure: true })
            && *final(tcb) == *old(tcb) && final(mem)@ == old(mem)@,
        cause == TrapCause::UserEnvCall ==> (final(mem)@, final(tcb).ctx.x@, act) == syscall_result(old(mem)@, *old(tcb))
            && final(tcb).ctx.supervisor == old(tcb).ctx.supervisor
            && final(tcb).ctx.interrupt == old(tcb).ctx.interrupt
            && final(tcb).vspace_root == old(tcb).vspace_root
            && final(tcb).state == old(tcb).state,
        cause == TrapCause::UserEnvCall ==> final(tcb).ctx.sepc == (if old(tcb).ctx.sepc + 4 > usize::MAX {
            old(tcb).ctx.sepc + 4 - (usize::MAX + 1)
        } else {
            old(tcb).ctx.sepc + 4
        }),
{
    match cause {
        TrapCause::UserEnvCall => {
            tcb.ctx.move_next();
            handle_syscall(tcb, mem)
        },
        _ => SyscallAction::Shutdown { failure: true },
    }
}

/// Handles the rootserver's first trap when the kernel only checks that the
/// rootserver starts: an `ecall` moves the pc past the instruction and powers
/// off normally; any other trap powers off abnormally. Nothing else changes.
pub fn shutdown_on_first_trap(tcb: &mut Tcb, cause: TrapCause) -> (act: SyscallAction)
    ensures
        cause == TrapCause::UserEnvCall ==> act == (SyscallAction::Shutdown { failure: false })
            && final(tcb).ctx.sepc == (if old(tcb).ctx.sepc + 4 > usize::MAX {
                old(tcb).ctx.sepc + 4 - (usize::MAX + 1)
            } else {
                old(tcb).ctx.sepc + 4
            })
            && final(tcb).ctx.x == old(tcb).ctx.x
            && final(tcb).ctx.supervisor == old(tcb).ctx.supervisor
            && final(tcb).ctx.interrupt == old(tcb).ctx.interrupt
            && final(tcb).cspace_root == old(tcb).cspace_root
            && final(tcb).vspace_root == old(tcb).vspace_root
            && final(tcb).state == old(tcb).state,
        cause != TrapCause::UserEnvCall ==> act == (SyscallAction::Shutdown { failure: true })
            && *final(tcb) == *old(tcb),
{
    match cause {
        TrapCause::UserEnvCall => {
            tcb.ctx.move_next();
            SyscallAction::Shutdown { failure: false }
        },
        _ => SyscallAction::Shutdown { failure: true },
    }
}

} // verus!
