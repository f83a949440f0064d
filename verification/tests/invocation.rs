use sal4::common::invocation::{
    ERR_DESTINATION, ERR_LOOKUP, ERR_UNSUPPORTED_CAP, ERR_UNSUPPORTED_LABEL, ERR_UNSUPPORTED_OBJECT,
    ERR_UNTYPED_SPACE, OBJECT_FRAME, OK, UNTYPED_RETYPE,
};
use sal4::common::sal4_syscall::{CAP_INVOKE, DEBUG_PUT_CHAR, DEBUG_SHUTDOWN};
use sal4::common::CPtr;
use sal4::kernel::boot::rootserver::{handle_rootserver_trap, shutdown_on_first_trap, RootserverImage, TrapCause};
use sal4::kernel::boot::{bootstrap, BootObjectLayout, BootState};
use sal4::kernel::cap::invocation::{handle_cap_invoke, untyped_retype, InvokeError};
use sal4::kernel::cap::threads::Tcb;
use sal4::kernel::cap::{Capability, CNodeCap, FrameCap, MDBNode, Slot, SlotMemory, UntypedCap};
use sal4::kernel::syscall::{handle_syscall, SyscallAction};
use sal4::rootserver::{invocation_succeeded, request_first_frame_retype};

fn boot() -> BootState {
    bootstrap(
        0x8022_0000,
        RootserverImage { start: 0x8040_0000, end: 0x8040_2345 },
        BootObjectLayout {
            bootinfo_size: 4096,
            bootinfo_align: 4096,
            slot_size: 64,
            slot_align: 8,
            tcb_size: 360,
            tcb_align: 8,
        },
    )
}

fn invoke(st: &mut BootState, service: usize, label: usize, object: usize, dest: usize, bits: usize) -> SyscallAction {
    st.root_tcb.ctx.set_a(7, CAP_INVOKE);
    st.root_tcb.ctx.set_a(0, service);
    st.root_tcb.ctx.set_a(1, label);
    st.root_tcb.ctx.set_a(2, object);
    st.root_tcb.ctx.set_a(3, dest);
    st.root_tcb.ctx.set_a(4, bits);
    handle_syscall(&mut st.root_tcb, &mut st.cnode)
}

#[test]
fn first_retype_writes_a_frame_into_the_first_empty_slot() {
    let mut st = boot();
    let req = request_first_frame_retype(&st.bootinfo);
    assert_eq!(req.service, st.bootinfo.untyped.start.raw());
    assert_eq!(req.arg1, st.bootinfo.empty.start.raw());
    let paddr = st.bootinfo.untyped_paddr_list[0];
    let act = invoke(&mut st, req.service, req.label, req.arg0, req.arg1, req.arg2);
    let frame = FrameCap { paddr, size_bits: 12 };
    assert_eq!(act, SyscallAction::ZeroFrame(frame));
    assert_eq!(st.root_tcb.ctx.a(0), OK as usize);
    assert!(invocation_succeeded(st.root_tcb.ctx.a(0) as isize));
    assert_eq!(st.cnode.slots[req.arg1], Slot { cap: Capability::Frame(frame), mdb: MDBNode::empty() });
    match st.cnode.slots[req.service].cap {
        Capability::Untyped(u) => assert_eq!(u.free_offset, 4096),
        _ => panic!("service slot must still hold the untyped"),
    }
}

#[test]
fn successive_retypes_carve_disjoint_frames() {
    let mut st = boot();
    let i = (0..16).find(|&i| st.bootinfo.untyped_size_bits_list[i] >= 14).unwrap();
    let service = st.bootinfo.untyped.start.raw() + i;
    let dest = st.bootinfo.empty.start.raw();
    let a = invoke(&mut st, service, UNTYPED_RETYPE, OBJECT_FRAME, dest, 12);
    let b = invoke(&mut st, service, UNTYPED_RETYPE, OBJECT_FRAME, dest + 1, 12);
    match (a, b) {
        (SyscallAction::ZeroFrame(fa), SyscallAction::ZeroFrame(fb)) => {
            assert_eq!(fa.paddr, st.bootinfo.untyped_paddr_list[i]);
            assert_eq!(fb.paddr, fa.paddr + 4096);
        }
        _ => panic!("both retypes should succeed"),
    }
}

#[test]
fn a_page_sized_boot_untyped_is_used_up_by_one_frame() {
    let mut st = boot();
    assert_eq!(st.bootinfo.untyped_size_bits_list[0], 12);
    let service = st.bootinfo.untyped.start.raw();
    let dest = st.bootinfo.empty.start.raw();
    assert!(matches!(invoke(&mut st, service, UNTYPED_RETYPE, OBJECT_FRAME, dest, 12), SyscallAction::ZeroFrame(_)));
    assert_eq!(invoke(&mut st, service, UNTYPED_RETYPE, OBJECT_FRAME, dest + 1, 12), SyscallAction::Resume);
    assert_eq!(st.root_tcb.ctx.a(0), ERR_UNTYPED_SPACE);
}

#[test]
fn retype_into_an_occupied_slot_is_refused() {
    let mut st = boot();
    let service = st.bootinfo.untyped.start.raw();
    let before = st.cnode.slots.clone();
    let act = invoke(&mut st, service, UNTYPED_RETYPE, OBJECT_FRAME, 1, 12);
    assert_eq!(act, SyscallAction::Resume);
    assert_eq!(st.root_tcb.ctx.a(0), ERR_DESTINATION);
    assert_eq!(st.cnode.slots, before);
}

#[test]
fn retype_error_codes() {
    let mut st = boot();
    let service = st.bootinfo.untyped.start.raw();
    let dest = st.bootinfo.empty.start.raw();
    invoke(&mut st, service, 7, OBJECT_FRAME, dest, 12);
    assert_eq!(st.root_tcb.ctx.a(0), ERR_UNSUPPORTED_LABEL);
    invoke(&mut st, service, UNTYPED_RETYPE, 9, dest, 12);
    assert_eq!(st.root_tcb.ctx.a(0), ERR_UNSUPPORTED_OBJECT);
    invoke(&mut st, service, UNTYPED_RETYPE, OBJECT_FRAME, dest, 13);
    assert_eq!(st.root_tcb.ctx.a(0), ERR_UNTYPED_SPACE);
    invoke(&mut st, 255, UNTYPED_RETYPE, OBJECT_FRAME, dest, 12);
    assert_eq!(st.root_tcb.ctx.a(0), ERR_LOOKUP);
    invoke(&mut st, 1, UNTYPED_RETYPE, OBJECT_FRAME, dest, 12);
    assert_eq!(st.root_tcb.ctx.a(0), ERR_UNSUPPORTED_CAP);
    invoke(&mut st, service, UNTYPED_RETYPE, OBJECT_FRAME, 0x1_00, 12);
    assert_eq!(st.root_tcb.ctx.a(0), ERR_DESTINATION);
}

#[test]
fn invocation_without_a_cnode_root_is_unsupported() {
    let mut tcb = Tcb::empty();
    let mut mem = SlotMemory { slots: vec![Slot::empty(); 4] };
    tcb.ctx.set_a(0, 1);
    assert_eq!(handle_cap_invoke(&mut tcb, &mut mem), None);
    assert_eq!(tcb.ctx.a(0), ERR_UNSUPPORTED_CAP);
}

fn small_space() -> (SlotMemory, CNodeCap, UntypedCap) {
    let root = CNodeCap { storage: 0, radix_bits: 2, guard_size: 62, guard: 0 };
    let u = UntypedCap { paddr: 0x10_0000, size_bits: 12, is_device: false, free_offset: 0 };
    let slots = vec![
        Slot { cap: Capability::Untyped(u), mdb: MDBNode::empty() },
        Slot::empty(),
        Slot::empty(),
        Slot::empty(),
    ];
    (SlotMemory { slots }, root, u)
}

#[test]
fn a_page_sized_untyped_yields_exactly_one_frame() {
    let (mut mem, root, mut u) = small_space();
    let f = untyped_retype(&mut mem, &root, &mut u, OBJECT_FRAME, CPtr::new(1), 12).unwrap();
    assert_eq!(f, FrameCap { paddr: 0x10_0000, size_bits: 12 });
    assert_eq!(u.free_offset, 4096);
    assert_eq!(
        untyped_retype(&mut mem, &root, &mut u, OBJECT_FRAME, CPtr::new(2), 12),
        Err(InvokeError::UntypedSpace)
    );
    assert_eq!(mem.slots[2], Slot::empty());
}

#[test]
fn retype_rounds_the_free_offset_up_to_a_page() {
    let (mut mem, root, _) = small_space();
    let mut u = UntypedCap { paddr: 0x10_0000, size_bits: 14, is_device: false, free_offset: 10 };
    let f = untyped_retype(&mut mem, &root, &mut u, OBJECT_FRAME, CPtr::new(3), 12).unwrap();
    assert_eq!(f.paddr, 0x10_1000);
    assert_eq!(u.free_offset, 0x2000);
}

#[test]
fn an_unaligned_untyped_rounds_its_frames_up() {
    let (mut mem, root, _) = small_space();
    let mut u = UntypedCap { paddr: 0x10_0800, size_bits: 13, is_device: false, free_offset: 0 };
    let f = untyped_retype(&mut mem, &root, &mut u, OBJECT_FRAME, CPtr::new(1), 12).unwrap();
    assert_eq!(f.paddr, 0x10_1000);
    assert_eq!(u.free_offset, 0x1800);
    assert_eq!(
        untyped_retype(&mut mem, &root, &mut u, OBJECT_FRAME, CPtr::new(2), 12),
        Err(InvokeError::UntypedSpace)
    );
}

#[test]
fn an_untyped_smaller_than_a_page_yields_nothing() {
    let (mut mem, root, _) = small_space();
    let mut u = UntypedCap { paddr: 0x10_0000, size_bits: 11, is_device: false, free_offset: 0 };
    assert_eq!(
        untyped_retype(&mut mem, &root, &mut u, OBJECT_FRAME, CPtr::new(1), 12),
        Err(InvokeError::UntypedSpace)
    );
    assert_eq!(u.free_offset, 0);
    assert_eq!(mem.slots[1], Slot::empty());
}

#[test]
fn invoke_errors_map_to_their_codes() {
    assert_eq!(usize::from(InvokeError::UnsupportedObject), ERR_UNSUPPORTED_OBJECT);
    assert_eq!(usize::from(InvokeError::UntypedSpace), ERR_UNTYPED_SPACE);
    assert_eq!(usize::from(InvokeError::Destination), ERR_DESTINATION);
    assert_ne!(ERR_DESTINATION, OK as usize);
}

#[test]
fn debug_syscalls() {
    let mut st = boot();
    st.root_tcb.ctx.set_a(7, DEBUG_PUT_CHAR);
    st.root_tcb.ctx.set_a(0, 0x141);
    assert_eq!(handle_syscall(&mut st.root_tcb, &mut st.cnode), SyscallAction::PutChar(b'A'));
    assert_eq!(st.root_tcb.ctx.a(0), 0);
    st.root_tcb.ctx.set_a(7, DEBUG_SHUTDOWN);
    assert_eq!(handle_syscall(&mut st.root_tcb, &mut st.cnode), SyscallAction::Shutdown { failure: false });
    st.root_tcb.ctx.set_a(7, 99);
    assert_eq!(handle_syscall(&mut st.root_tcb, &mut st.cnode), SyscallAction::Shutdown { failure: true });
}

#[test]
fn rootserver_traps() {
    let mut st = boot();
    let pc = st.root_tcb.ctx.pc();
    st.root_tcb.ctx.set_a(7, DEBUG_PUT_CHAR);
    st.root_tcb.ctx.set_a(0, b'x' as usize);
    let act = handle_rootserver_trap(&mut st.root_tcb, &mut st.cnode, TrapCause::UserEnvCall);
    assert_eq!(act, SyscallAction::PutChar(b'x'));
    assert_eq!(st.root_tcb.ctx.pc(), pc + 4);
    let act = handle_rootserver_trap(&mut st.root_tcb, &mut st.cnode, TrapCause::Exception);
    assert_eq!(act, SyscallAction::Shutdown { failure: true });
    assert_eq!(st.root_tcb.ctx.pc(), pc + 4);
    let act = handle_rootserver_trap(&mut st.root_tcb, &mut st.cnode, TrapCause::Interrupt);
    assert_eq!(act, SyscallAction::Shutdown { failure: true });
}

#[test]
fn a_run_of_retypes_hands_out_disjoint_pages_in_order() {
    let root = CNodeCap { storage: 0, radix_bits: 3, guard_size: 61, guard: 0 };
    let mut mem = SlotMemory { slots: vec![Slot::empty(); 8] };
    let mut u = UntypedCap { paddr: 0x20_0000, size_bits: 14, is_device: false, free_offset: 0x123 };
    let mut frames = Vec::new();
    let mut offsets = vec![u.free_offset];
    for dest in [1usize, 1, 2, 9, 3, 4, 5] {
        if let Ok(f) = untyped_retype(&mut mem, &root, &mut u, OBJECT_FRAME, CPtr::new(dest), 12) {
            frames.push(f);
        }
        offsets.push(u.free_offset);
        assert_eq!((u.paddr, u.size_bits, u.is_device), (0x20_0000, 14, false));
        assert!(u.free_offset <= 1 << 14);
    }
    assert!(offsets.windows(2).all(|w| w[0] <= w[1]));
    let starts: Vec<usize> = frames.iter().map(|f| f.paddr).collect();
    assert_eq!(starts, vec![0x20_1000, 0x20_2000, 0x20_3000]);
    for w in frames.windows(2) {
        assert!(w[0].paddr + 4096 <= w[1].paddr);
    }
    assert_eq!(
        untyped_retype(&mut mem, &root, &mut u, OBJECT_FRAME, CPtr::new(6), 12),
        Err(InvokeError::UntypedSpace)
    );
}

#[test]
fn cptrs_are_equal_exactly_when_their_words_are() {
    assert_eq!(CPtr::new(7), CPtr::new(7));
    assert_ne!(CPtr::new(7), CPtr::new(8));
    assert_eq!(CPtr::new(usize::MAX).raw(), usize::MAX);
}

#[test]
fn first_trap_powers_off() {
    let mut st = boot();
    let pc = st.root_tcb.ctx.pc();
    assert_eq!(shutdown_on_first_trap(&mut st.root_tcb, TrapCause::Exception), SyscallAction::Shutdown { failure: true });
    assert_eq!(st.root_tcb.ctx.pc(), pc);
    assert_eq!(shutdown_on_first_trap(&mut st.root_tcb, TrapCause::Interrupt), SyscallAction::Shutdown { failure: true });
    assert_eq!(st.root_tcb.ctx.pc(), pc);
    assert_eq!(shutdown_on_first_trap(&mut st.root_tcb, TrapCause::UserEnvCall), SyscallAction::Shutdown { failure: false });
    assert_eq!(st.root_tcb.ctx.pc(), pc + 4);
}
