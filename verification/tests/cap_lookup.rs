use sal4::common::CPtr;
use sal4::kernel::boot::rootserver::RootserverImage;
use sal4::kernel::boot::{bootstrap, BootObjectLayout, BootState};
use sal4::kernel::cap::utils::{
    ensure_empty_slot, ensure_present_slot, lookup_cap_and_slot, lookup_empty_slot, lookup_slot,
    lookup_source_slot, lookup_target_slot, resolve_cptr, LookupError,
};
use sal4::kernel::cap::{Capability, CNodeCap, FrameCap, MDBNode, Slot, SlotMemory, TCBCap};

fn boot() -> BootState {
    bootstrap(
        0x8022_0000,
        RootserverImage { start: 0x8040_0000, end: 0x8040_2345 },
        BootObjectLayout {
            bootinfo_size: 4096,
            bootinfo_align: 4096,
            slot_size: 64,
            slot_align: 8,
            tcb_size: 360,
            tcb_align: 8,
        },
    )
}

fn root_of(st: &BootState) -> CNodeCap {
    match st.root_tcb.cspace_root {
        Capability::CNode(c) => c,
        _ => panic!("root thread has no cnode"),
    }
}

fn frame(paddr: usize) -> Slot {
    Slot { cap: Capability::Frame(FrameCap { paddr, size_bits: 12 }), mdb: MDBNode::empty() }
}

/// A two-level tree: a 4-slot root cnode at address 0 whose slot 1 holds a
/// 4-slot cnode at address 4; slot 0 of the root is empty.
fn two_level() -> (SlotMemory, CNodeCap) {
    let inner = CNodeCap { storage: 4, radix_bits: 2, guard_size: 0, guard: 0 };
    let root = CNodeCap { storage: 0, radix_bits: 2, guard_size: 0, guard: 0 };
    let slots = vec![
        Slot::empty(),
        Slot { cap: Capability::CNode(inner), mdb: MDBNode::empty() },
        frame(0x2000),
        frame(0x3000),
        frame(0x4000),
        frame(0x5000),
        frame(0x6000),
        Slot::empty(),
    ];
    (SlotMemory { slots }, root)
}

#[test]
fn root_cnode_resolves_small_cptrs_to_slot_indices() {
    let st = boot();
    let root = root_of(&st);
    let s = lookup_slot(&st.cnode, &root, CPtr::new(5), 64).unwrap();
    let p = s.ensure_present(&st.cnode).unwrap();
    assert_eq!(p.cap(&st.cnode), Capability::Frame(FrameCap { paddr: st.ipc_buffer_paddr, size_bits: 12 }));
    assert_eq!(p.snapshot(&st.cnode), st.cnode.slots[5]);
}

#[test]
fn guard_bits_must_match() {
    let st = boot();
    let root = root_of(&st);
    assert_eq!(lookup_slot(&st.cnode, &root, CPtr::new(0x105), 64).err(), Some(LookupError::GuardMismatch));
}

#[test]
fn too_few_bits_is_an_invalid_path() {
    let st = boot();
    let root = root_of(&st);
    assert_eq!(lookup_slot(&st.cnode, &root, CPtr::new(5), 8).err(), Some(LookupError::InvalidPath));
    assert_eq!(lookup_slot(&st.cnode, &root, CPtr::new(5), 60).err(), Some(LookupError::InvalidPath));
}

#[test]
fn bits_beyond_the_word_read_as_zero() {
    let st = boot();
    let root = root_of(&st);
    // A 128-bit path reads zeros above the word: its top part selects slot
    // 0, which is not a cnode, while 64 bits remain.
    let s = lookup_source_slot(&st.cnode, &root, CPtr::new(1), 128);
    assert_eq!(s.err(), Some(LookupError::TooDeep));
}

#[test]
fn source_lookup_rejects_an_empty_slot() {
    let st = boot();
    let root = root_of(&st);
    assert_eq!(lookup_source_slot(&st.cnode, &root, CPtr::new(0), 64).err(), Some(LookupError::EmptySlot));
    assert_eq!(lookup_source_slot(&st.cnode, &root, CPtr::new(255), 64).err(), Some(LookupError::EmptySlot));
}

#[test]
fn empty_lookup_rejects_an_occupied_slot() {
    let st = boot();
    let root = root_of(&st);
    assert_eq!(lookup_empty_slot(&st.cnode, &root, CPtr::new(1), 64).err(), Some(LookupError::SlotNotEmpty));
    assert!(lookup_empty_slot(&st.cnode, &root, CPtr::new(255), 64).is_ok());
}

#[test]
fn target_lookup_accepts_any_slot() {
    let st = boot();
    let root = root_of(&st);
    let t = lookup_target_slot(&st.cnode, &root, CPtr::new(0), 64).unwrap();
    assert_eq!(t.ensure_present(&st.cnode).err(), Some(LookupError::EmptySlot));
    let t = lookup_target_slot(&st.cnode, &root, CPtr::new(1), 64).unwrap();
    assert_eq!(t.ensure_empty(&st.cnode).err(), Some(LookupError::SlotNotEmpty));
}

#[test]
fn cap_and_slot_and_resolve_cptr() {
    let st = boot();
    let root = root_of(&st);
    let (cap, slot) = lookup_cap_and_slot(&st.cnode, &root, CPtr::new(1), 64).unwrap();
    assert_eq!(cap, Capability::Tcb(TCBCap { ptr: st.root_tcb_paddr }));
    assert_eq!(slot.cap(&st.cnode), cap);
    assert_eq!(resolve_cptr(&st.cnode, &root, CPtr::new(4), 64).unwrap(), st.cnode.slots[4]);
    assert_eq!(resolve_cptr(&st.cnode, &root, CPtr::new(200), 64).err(), Some(LookupError::EmptySlot));
}

#[test]
fn two_level_walk_descends_into_the_inner_cnode() {
    let (mem, root) = two_level();
    // 0b01_10: root index 1 (the inner cnode), inner index 2.
    let s = resolve_cptr(&mem, &root, CPtr::new(0b0110), 4).unwrap();
    assert_eq!(s, frame(0x6000));
}

#[test]
fn two_level_walk_errors() {
    let (mem, root) = two_level();
    // Root index 2 holds a frame, but two bits remain.
    assert_eq!(resolve_cptr(&mem, &root, CPtr::new(0b1000), 4).err(), Some(LookupError::TooDeep));
    // Root index 1 is the inner cnode, which needs two more bits.
    assert_eq!(lookup_slot(&mem, &root, CPtr::new(0b01), 2).err(), Some(LookupError::InvalidPath));
    // Inner index 3 is empty.
    assert_eq!(lookup_source_slot(&mem, &root, CPtr::new(0b0111), 4).err(), Some(LookupError::EmptySlot));
    assert!(lookup_empty_slot(&mem, &root, CPtr::new(0b0111), 4).is_ok());
}

#[test]
fn slot_content_checks() {
    let (mem, _) = two_level();
    assert_eq!(ensure_present_slot(&mem, 0), Err(LookupError::EmptySlot));
    assert_eq!(ensure_present_slot(&mem, 2), Ok(()));
    assert_eq!(ensure_empty_slot(&mem, 0), Ok(()));
    assert_eq!(ensure_empty_slot(&mem, 2), Err(LookupError::SlotNotEmpty));
}

#[test]
fn writes_through_slot_handles() {
    let (mut mem, root) = two_level();
    let e = lookup_empty_slot(&mem, &root, CPtr::new(0b0111), 4).unwrap();
    e.write(&mut mem, frame(0x7000));
    assert_eq!(mem.slots[7], frame(0x7000));
    let p = lookup_source_slot(&mem, &root, CPtr::new(0b0111), 4).unwrap();
    p.replace_cap(&mut mem, Capability::Frame(FrameCap { paddr: 0x8000, size_bits: 12 }));
    assert_eq!(mem.slots[7], frame(0x8000));
}
