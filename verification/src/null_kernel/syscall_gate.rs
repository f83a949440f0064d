//! The syscall gate of the null kernel: a task may only make a
//! syscall that one of its capabilities authorises.
//!
//! Handling a user call alternates decisions and the syscall service itself:
//! [`dispatch_user_call`] checks the capability and hands back the request
//! to service; the service's outcome goes to [`finish_user_call`].

use vstd::prelude::*;
use crate::context::{UserContext, a_index};
use crate::kernel::boot::rootserver::TrapCause;
use super::cap::{Capability, EndpointCap, NULL_CSPACE_SLOTS};
use super::threads::Tcb;

verus! {

/// What the scheduler does with the task after a trap.
#[derive(Debug, Copy, Clone, PartialEq, Eq, Structural)]
pub enum TrapAction {
    /// Resume the task.
    Continue,
    /// The task exited.
    Exit,
    /// The task was killed.
    Killed,
}

/// A user call, classified by its syscall number.
#[derive(Debug, Copy, Clone, PartialEq, Eq, Structural)]
pub enum UserCall {
    /// Write to a console file descriptor.
    Write,
    /// Exit the task.
    Exit,
    /// Any other syscall number.
    Other(usize),
}

/// Syscall number of `write`, as the syscall ABI numbers it.
pub const SYSCALL_WRITE: usize = 64;

/// Syscall number of `exit`, as the syscall ABI numbers it.
pub const SYSCALL_EXIT: usize = 93;

/// The user call that syscall number `n` (register `a7`) requests.
pub open spec fn user_call_of(n: usize) -> UserCall {
    if n == SYSCALL_WRITE {
        UserCall::Write
    } else if n == SYSCALL_EXIT {
        UserCall::Exit
    } else {
        UserCall::Other(n)
    }
}

impl UserCall {
    /// Classifies the syscall number in register `a7`: `write` and `exit`
    /// are told apart, every other number is kept as it is.
    pub fn from_syscall_number(n: usize) -> (c: UserCall)
        ensures
            c == user_call_of(n),
            n == SYSCALL_WRITE <==> c == UserCall::Write,
            n == SYSCALL_EXIT <==> c == UserCall::Exit,
            n != SYSCALL_WRITE && n != SYSCALL_EXIT <==> c == UserCall::Other(n),
    {
        if n == SYSCALL_WRITE {
            UserCall::Write
        } else if n == SYSCALL_EXIT {
            UserCall::Exit
        } else {
            UserCall::Other(n)
        }
    }
}

/// The capability check's decision before a call is serviced.
#[derive(Debug, Copy, Clone, PartialEq, Eq)]
pub enum GateDecision {
    /// Service the call for the caller `(entity, flow)` with arguments `a0..a5`.
    Service { entity: usize, flow: usize, args: [usize; 6] },
    /// The capability in `slot` does not authorise the call; the task was killed.
    CapFault { slot: usize },
}

/// The syscall service's outcome.
#[derive(Debug, Copy, Clone, PartialEq, Eq, Structural)]
pub enum SyscallOutcome {
    /// The call completed with this return value.
    Done(isize),
    /// The service does not support this syscall number.
    Unsupported(usize),
}

/// The slot whose capability must authorise the call, if any.
pub open spec fn required_slot(call: UserCall) -> Option<usize> {
    match call {
        UserCall::Write => Some(1),
        UserCall::Exit => Some(2),
        UserCall::Other(_) => None,
    }
}

/// A capability authorises the call for a task with write badge `badge`:
/// a write needs the endpoint carrying that badge, an exit needs a TCB.
pub open spec fn cap_permits(call: UserCall, cap: Capability, badge: usize) -> bool {
    match call {
        UserCall::Write => cap == Capability::Endpoint(EndpointCap { badge }),
        UserCall::Exit => cap == Capability::Tcb,
        UserCall::Other(_) => true,
    }
}

/// The task may make the call.
pub open spec fn gate_allows(task: Tcb, call: UserCall) -> bool {
    match required_slot(call) {
        None => true,
        Some(i) => i < NULL_CSPACE_SLOTS && cap_permits(call, task.cspace.slots@[i as int], task.write_badge),
    }
}

/// The task's pc after stepping over the trapping instruction.
pub open spec fn next_pc(ctx: UserContext) -> usize {
    if ctx.sepc + 4 > usize::MAX {
        (ctx.sepc + 4 - (usize::MAX + 1)) as usize
    } else {
        (ctx.sepc + 4) as usize
    }
}

/// Kills the task at a capability fault, stepping over the faulting call.
fn cap_fault(task: &mut Tcb)
    ensures
        !final(task).alive,
        final(task).ctx.sepc == next_pc(old(task).ctx),
        final(task).ctx.x == old(task).ctx.x,
        final(task).ctx.supervisor == old(task).ctx.supervisor,
        final(task).ctx.interrupt == old(task).ctx.interrupt,
        final(task).id == old(task).id,
        final(task).cspace == old(task).cspace,
        final(task).write_badge == old(task).write_badge,
{
    task.alive = false;
    task.ctx.move_next();
}

/// Checks that the task holds the capability that the call needs.
///
/// A write needs the endpoint with the task's badge in slot 1, an exit a TCB
/// capability in slot 2; other calls need nothing. When the check fails the
/// task is killed and the slot is reported; otherwise the task is unchanged
/// and the request to service is returned.
pub fn dispatch_user_call(task: &mut Tcb, call: UserCall) -> (d: GateDecision)
    ensures
        gate_allows(*old(task), call) ==> *final(task) == *old(task) && d == (GateDecision::Service {
            entity: old(task).id,
            flow: old(task).write_badge,
            args: [
                old(task).ctx.arg(0),
                old(task).ctx.arg(1),
                old(task).ctx.arg(2),
                old(task).ctx.arg(3),
                old(task).ctx.arg(4),
                old(task).ctx.arg(5),
            ],
        }),
        !gate_allows(*old(task), call) ==> d == (GateDecision::CapFault { slot: required_slot(call)->Some_0 })
            && !final(task).alive && final(task).ctx.sepc == next_pc(old(task).ctx)
            && final(task).ctx.x == old(task).ctx.x && final(task).id == old(task).id
            && final(task).ctx.supervisor == old(task).ctx.supervisor
            && final(task).ctx.interrupt == old(task).ctx.interrupt
            && final(task).cspace == old(task).cspace && final(task).write_badge == old(task).write_badge,
{
    let required_slot: Option<usize> = match call {
        UserCall::Write => Some(1),
        UserCall::Exit => Some(2),
        UserCall::Other(_) => None,
    };

    if let Some(slot_index) = required_slot {
        let cap = match task.cspace.lookup(slot_index) {
            Some(cap) => cap,
            None => {
                cap_fault(task);
                return GateDecision::CapFault { slot: slot_index };
            },
        };
        let permitted = match call {
            UserCall::Write => match cap {
                Capability::Endpoint(ep) => ep.badge == task.write_badge,
                _ => false,
            },
            UserCall::Exit => match cap {
                Capability::Tcb => true,
                _ => false,
            },
            UserCall::Other(_) => true,
        };
        if !permitted {
            cap_fault(task);
            return GateDecision::CapFault { slot: slot_index };
        }
    }

    GateDecision::Service {
        entity: task.id,
        flow: task.write_badge,
        args: [task.ctx.a(0), task.ctx.a(1), task.ctx.a(2), task.ctx.a(3), task.ctx.a(4), task.ctx.a(5)],
    }
}

/// Applies the service's outcome to the task.
///
/// A completed call gets its return value in `a0` and the pc past the call;
/// an exit then ends the task. An unsupported call kills the task.
pub fn finish_user_call(task: &mut Tcb, call: UserCall, outcome: SyscallOutcome) -> (act: TrapAction)
    ensures
        final(task).ctx.sepc == next_pc(old(task).ctx),
        final(task).ctx.supervisor == old(task).ctx.supervisor,
        final(task).ctx.interrupt == old(task).ctx.interrupt,
        final(task).id == old(task).id,
        final(task).cspace == old(task).cspace,
        final(task).write_badge == old(task).write_badge,
        match outcome {
            SyscallOutcome::Done(ret) => final(task).ctx.x@ == old(task).ctx.x@.update(a_index(0), ret as usize)
                && (call == UserCall::Exit ==> act == TrapAction::Exit && !final(task).alive)
                && (call != UserCall::Exit ==> act == TrapAction::Continue && final(task).alive == old(task).alive),
            SyscallOutcome::Unsupported(_) => act == TrapAction::Killed && !final(task).alive
                && final(task).ctx.x == old(task).ctx.x,
        },
{
    match outcome {
        SyscallOutcome::Done(ret) => {
            task.ctx.set_a(0, ret as usize);
            task.ctx.move_next();
            if call == UserCall::Exit {
                task.alive = false;
                return TrapAction::Exit;
            }
        },
        SyscallOutcome::Unsupported(_) => {
            task.alive = false;
            task.ctx.move_next();
            return TrapAction::Killed;
        },
    }
    TrapAction::Continue
}

/// Decides on a trap: a user `ecall` is a call to dispatch (`None`, task
/// unchanged); any other trap kills the task.
pub fn handle_trap(task: &mut Tcb, cause: TrapCause) -> (act: Option<TrapAction>)
    ensures
        cause == TrapCause::UserEnvCall ==> act is None && *final(task) == *old(task),
        cause != TrapCause::UserEnvCall ==> act == Some(TrapAction::Killed) && !final(task).alive
            && final(task).ctx == old(task).ctx && final(task).id == old(task).id
            && final(task).cspace == old(task).cspace && final(task).write_badge == old(task).write_badge,
{
    match cause {
        TrapCause::UserEnvCall => None,
        _ => {
            task.alive = false;
            Some(TrapAction::Killed)
        },
    }
}

} // verus!
