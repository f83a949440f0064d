use sal4::kernel::boot::rootserver::TrapCause;
use sal4::kernel::cap::{Capability as KernelCap, CNodeCap, FrameCap, MDBNode, Slot, SlotMemory};
use sal4::null_kernel::cap::{CSpace, Capability, EndpointCap, NULL_CSPACE_SLOTS};
use sal4::null_kernel::impls::{is_console, SyscallContext};
use sal4::null_kernel::syscall_gate::{
    dispatch_user_call, finish_user_call, handle_trap, GateDecision, SyscallOutcome, TrapAction, UserCall,
};
use sal4::null_kernel::threads::Tcb;
use sal4::null_kernel::utils::{resolve_cptr, CPtr, LookupError};

#[test]
fn empty_cspace() {
    let c = CSpace::empty();
    for i in 0..NULL_CSPACE_SLOTS {
        assert_eq!(c.lookup(i), Some(Capability::Null));
    }
    assert_eq!(c.lookup(NULL_CSPACE_SLOTS), None);
}

#[test]
fn null_kernel_cspace_layout() {
    let c = CSpace::for_null_kernel(7);
    assert_eq!(c.lookup(0), Some(Capability::Null));
    assert_eq!(c.lookup(1), Some(Capability::Endpoint(EndpointCap { badge: 7 })));
    assert_eq!(c.lookup(2), Some(Capability::Tcb));
    assert_eq!(c.lookup(3), Some(Capability::Null));
    assert_eq!(c.lookup(100), None);
}

#[test]
fn new_task() {
    let t = Tcb::new(3, 0x8040_0000, 0x8050_0000, 9);
    assert_eq!(t.id, 3);
    assert!(t.alive);
    assert_eq!(t.ctx.pc(), 0x8040_0000);
    assert_eq!(t.ctx.sp(), 0x8050_0000);
    assert_eq!(t.write_badge, 9);
    assert_eq!(t.cspace.lookup(1), Some(Capability::Endpoint(EndpointCap { badge: 9 })));
}

#[test]
fn a_write_with_the_right_badge_is_serviced() {
    let mut t = Tcb::new(3, 0x1000, 0x2000, 9);
    t.ctx.set_a(0, 1);
    t.ctx.set_a(1, 0x3000);
    t.ctx.set_a(2, 5);
    let d = dispatch_user_call(&mut t, UserCall::Write);
    assert_eq!(d, GateDecision::Service { entity: 3, flow: 9, args: [1, 0x3000, 5, 0, 0, 0] });
    assert!(t.alive);
    assert_eq!(t.ctx.pc(), 0x1000);
    assert_eq!(finish_user_call(&mut t, UserCall::Write, SyscallOutcome::Done(5)), TrapAction::Continue);
    assert_eq!(t.ctx.a(0), 5);
    assert_eq!(t.ctx.pc(), 0x1004);
    assert!(t.alive);
}

#[test]
fn a_write_with_a_foreign_badge_is_a_cap_fault() {
    let mut t = Tcb::new(3, 0x1000, 0x2000, 9);
    t.cspace = CSpace::for_null_kernel(8);
    let d = dispatch_user_call(&mut t, UserCall::Write);
    assert_eq!(d, GateDecision::CapFault { slot: 1 });
    assert!(!t.alive);
    assert_eq!(t.ctx.pc(), 0x1004);
}

#[test]
fn exit_needs_the_tcb_capability() {
    let mut t = Tcb::new(3, 0x1000, 0x2000, 9);
    assert!(matches!(dispatch_user_call(&mut t, UserCall::Exit), GateDecision::Service { .. }));
    assert_eq!(finish_user_call(&mut t, UserCall::Exit, SyscallOutcome::Done(0)), TrapAction::Exit);
    assert!(!t.alive);

    let mut u = Tcb::new(4, 0x1000, 0x2000, 9);
    u.cspace = CSpace::empty();
    assert_eq!(dispatch_user_call(&mut u, UserCall::Exit), GateDecision::CapFault { slot: 2 });
    assert!(!u.alive);
}

#[test]
fn other_calls_need_no_capability_but_may_be_unsupported() {
    let mut t = Tcb::new(3, 0x1000, 0x2000, 9);
    t.cspace = CSpace::empty();
    assert!(matches!(dispatch_user_call(&mut t, UserCall::Other(123)), GateDecision::Service { .. }));
    assert_eq!(finish_user_call(&mut t, UserCall::Other(123), SyscallOutcome::Unsupported(123)), TrapAction::Killed);
    assert!(!t.alive);
    assert_eq!(t.ctx.pc(), 0x1004);
}

#[test]
fn a_negative_return_value_is_stored_as_a_word() {
    let mut t = Tcb::new(3, 0x1000, 0x2000, 9);
    finish_user_call(&mut t, UserCall::Write, SyscallOutcome::Done(-1));
    assert_eq!(t.ctx.a(0), usize::MAX);
}

#[test]
fn non_ecall_traps_kill_the_task() {
    let mut t = Tcb::new(3, 0x1000, 0x2000, 9);
    assert_eq!(handle_trap(&mut t, TrapCause::UserEnvCall), None);
    assert!(t.alive);
    assert_eq!(handle_trap(&mut t, TrapCause::Exception), Some(TrapAction::Killed));
    assert!(!t.alive);
    assert_eq!(t.ctx.pc(), 0x1000);
}

#[test]
fn syscall_context_return_values() {
    let c = SyscallContext;
    assert_eq!(c.write(1, 12), 12);
    assert_eq!(c.write(2, 7), 7);
    assert_eq!(c.write(0, 12), -1);
    assert_eq!(c.write(3, 12), -1);
    assert_eq!(c.exit(3), 0);
}

fn frame(paddr: usize) -> Slot {
    Slot { cap: KernelCap::Frame(FrameCap { paddr, size_bits: 12 }), mdb: MDBNode::empty() }
}

#[test]
fn recursive_walk() {
    let inner = CNodeCap { storage: 4, radix_bits: 2, guard_size: 0, guard: 0 };
    let root = CNodeCap { storage: 0, radix_bits: 2, guard_size: 1, guard: 1 };
    let mem = SlotMemory {
        slots: vec![
            Slot::empty(),
            Slot { cap: KernelCap::CNode(inner), mdb: MDBNode::empty() },
            frame(0x2000),
            frame(0x3000),
            frame(0x4000),
            frame(0x5000),
            frame(0x6000),
            Slot::empty(),
        ],
    };
    assert_eq!(resolve_cptr(&mem, &root, CPtr::new(0b1_01_10), 5), Ok(frame(0x6000)));
    assert_eq!(resolve_cptr(&mem, &root, CPtr::new(0b0_01_10), 5), Err(LookupError::GuardMismatch));
    assert_eq!(resolve_cptr(&mem, &root, CPtr::new(0b1_10), 3), Ok(frame(0x2000)));
    assert_eq!(resolve_cptr(&mem, &root, CPtr::new(0b1_10_00), 5), Err(LookupError::TooDeep));
    assert_eq!(resolve_cptr(&mem, &root, CPtr::new(0b1_00), 3), Err(LookupError::EmptySlot));
    assert_eq!(resolve_cptr(&mem, &root, CPtr::new(0b1_01_11), 5), Err(LookupError::EmptySlot));
    assert_eq!(resolve_cptr(&mem, &root, CPtr::new(0b1_01), 3), Err(LookupError::InvalidPath));
    assert_eq!(resolve_cptr(&mem, &root, CPtr::new(1), 0), Err(LookupError::InvalidPath));
}

#[test]
fn syscall_number_classification() {
    assert_eq!(UserCall::from_syscall_number(64), UserCall::Write);
    assert_eq!(UserCall::from_syscall_number(93), UserCall::Exit);
    assert_eq!(UserCall::from_syscall_number(63), UserCall::Other(63));
    assert_eq!(UserCall::from_syscall_number(0), UserCall::Other(0));
    assert_eq!(UserCall::from_syscall_number(usize::MAX), UserCall::Other(usize::MAX));
}

#[test]
fn console_descriptors() {
    assert!(is_console(1));
    assert!(is_console(2));
    assert!(!is_console(0));
    assert!(!is_console(3));
}
