use sal4::common::{BootInfo, CPtr, SlotRegion};
use sal4::kernel::boot::populate_untyped_caps;
use sal4::kernel::cap::SlotMemory;
use sal4::common::MAX_UNTYPED_OBJECTS;
use sal4::config::{PAGE_SIZE, ROOT_CNODE_SLOTS};
use sal4::kernel::boot::mm::{probe_free_memory, BootArena, UntypedStream, ZeroRange};
use sal4::kernel::boot::rootserver::RootserverImage;
use sal4::kernel::boot::{bootstrap, BootObjectLayout, BootState};
use sal4::kernel::cap::threads::ThreadState;
use sal4::kernel::cap::{Capability, FrameCap, IRQControlCap, Slot, TCBCap, UntypedCap};

fn layout() -> BootObjectLayout {
    BootObjectLayout {
        bootinfo_size: 4096,
        bootinfo_align: 4096,
        slot_size: 64,
        slot_align: 8,
        tcb_size: 360,
        tcb_align: 8,
    }
}

fn image() -> RootserverImage {
    RootserverImage { start: 0x8040_0000, end: 0x8040_2345 }
}

fn boot() -> BootState {
    bootstrap(0x8022_0000, image(), layout())
}

fn collect(mut s: UntypedStream) -> Vec<(usize, u8)> {
    let mut v = Vec::new();
    while let Some(b) = s.next() {
        v.push(b);
    }
    v
}

#[test]
fn untyped_stream_cuts_aligned_power_of_two_blocks() {
    let blocks = collect(UntypedStream { current_paddr: 0x1000, end_paddr: 0x10000 });
    assert_eq!(blocks, vec![(0x1000, 12), (0x2000, 13), (0x4000, 14), (0x8000, 15)]);
}

#[test]
fn untyped_stream_takes_the_largest_fitting_block() {
    let blocks = collect(UntypedStream { current_paddr: 0x8000_0000, end_paddr: 0x8003_0000 });
    assert_eq!(blocks, vec![(0x8000_0000, 17), (0x8002_0000, 16)]);
}

#[test]
fn untyped_stream_stops_below_a_page() {
    let mut s = UntypedStream { current_paddr: 0x1000, end_paddr: 0x1fff };
    assert_eq!(s.next(), None);
    assert_eq!(s.current_paddr, 0x1000);
    let mut past = UntypedStream { current_paddr: 0x3000, end_paddr: 0x1000 };
    assert_eq!(past.next(), None);
}

#[test]
fn untyped_stream_blocks_are_contiguous_and_aligned() {
    let start = 0x8042_3000usize;
    let end = 0x80a2_0000usize;
    let blocks = collect(UntypedStream { current_paddr: start, end_paddr: end });
    let mut cur = start;
    for (paddr, bits) in blocks {
        assert_eq!(paddr, cur);
        assert_eq!(paddr % (1usize << bits), 0);
        assert!(bits >= 12);
        cur = paddr + (1usize << bits);
    }
    assert!(end - cur < PAGE_SIZE);
}

#[test]
fn boot_arena_places_objects_in_order() {
    let mut arena = BootArena::new(0x1001, 0x10000);
    assert_eq!(arena.cursor(), 0x2000);
    assert_eq!(arena.alloc_typed(100, 8), 0x2000);
    assert_eq!(arena.cursor(), 0x2064);
    assert_eq!(arena.alloc_slots(4, 24, 16), 0x2070);
    assert_eq!(arena.cursor(), 0x20d0);
    assert_eq!(arena.alloc_page_paddr(), 0x3000);
    assert_eq!(arena.cursor(), 0x4000);
}

#[test]
fn free_memory_starts_after_both_images() {
    let (start, end) = probe_free_memory(0x8022_0000, image());
    assert_eq!(start, 0x8040_3000);
    assert_eq!(end, 0x80a2_0000);
    let (start2, _) = probe_free_memory(0x8050_0010, image());
    assert_eq!(start2, 0x8050_1000);
}

#[test]
fn rootserver_image_size() {
    assert_eq!(image().size(), 0x2345);
}

#[test]
fn bootstrap_places_the_boot_objects() {
    let st = boot();
    assert_eq!(st.free_memory_start, 0x8040_3000);
    assert_eq!(st.free_memory_end, 0x80a2_0000);
    assert_eq!(st.bootinfo_paddr, 0x8040_3000);
    assert_eq!(st.root_cnode_paddr, 0x8040_4000);
    assert_eq!(st.root_tcb_paddr, 0x8040_4000 + 64 * 256);
    assert_eq!(st.ipc_buffer_paddr, 0x8040_9000);
    assert_eq!(st.rootserver_stack_paddr, 0x8040_a000);
    assert_eq!(st.untyped_start, 0x8040_b000);
}

#[test]
fn bootstrap_installs_the_fixed_slots() {
    let st = boot();
    let s = &st.cnode.slots;
    assert_eq!(s.len(), ROOT_CNODE_SLOTS);
    assert_eq!(s[0], Slot::empty());
    assert_eq!(s[1].cap, Capability::Tcb(TCBCap { ptr: st.root_tcb_paddr }));
    match s[2].cap {
        Capability::CNode(c) => {
            assert_eq!(c.storage, 0);
            assert_eq!(c.radix_bits, 8);
            assert_eq!(c.guard_size, 56);
            assert_eq!(c.guard, 0);
        }
        _ => panic!("slot 2 must hold the root cnode"),
    }
    assert_eq!(s[3].cap, Capability::IRQControl(IRQControlCap));
    assert_eq!(s[4].cap, Capability::Frame(FrameCap { paddr: st.bootinfo_paddr, size_bits: 12 }));
    assert_eq!(s[5].cap, Capability::Frame(FrameCap { paddr: st.ipc_buffer_paddr, size_bits: 12 }));
}

#[test]
fn bootstrap_records_the_rootserver_image_frames() {
    let st = boot();
    let bi = &st.bootinfo;
    assert_eq!(bi.user_image_frames.start.raw(), 6);
    assert_eq!(bi.user_image_frames.end.raw(), 9);
    for i in 0..3 {
        assert_eq!(
            st.cnode.slots[6 + i].cap,
            Capability::Frame(FrameCap { paddr: 0x8040_0000 + i * 4096, size_bits: 12 })
        );
    }
}

#[test]
fn bootstrap_exports_untyped_past_the_boot_objects() {
    let st = boot();
    let bi = &st.bootinfo;
    assert_eq!(bi.untyped.start.raw(), 9);
    assert_eq!(bi.untyped.end.raw(), bi.empty.start.raw());
    assert_eq!(bi.empty.end.raw(), ROOT_CNODE_SLOTS);
    let n = bi.untyped.end.raw() - bi.untyped.start.raw();
    assert!(n > 0 && n <= MAX_UNTYPED_OBJECTS);
    let mut cur = st.untyped_start;
    for i in 0..n {
        let paddr = bi.untyped_paddr_list[i];
        let bits = bi.untyped_size_bits_list[i];
        assert_eq!(paddr, cur);
        assert!(paddr >= st.rootserver_stack_paddr + PAGE_SIZE);
        assert_eq!(paddr % (1usize << bits), 0);
        assert_eq!(
            st.cnode.slots[9 + i].cap,
            Capability::Untyped(UntypedCap { paddr, size_bits: bits, is_device: false, free_offset: 0 })
        );
        cur = paddr + (1usize << bits);
    }
    assert!(cur <= st.free_memory_end);
    assert!(st.free_memory_end - cur < PAGE_SIZE);
    for i in n..MAX_UNTYPED_OBJECTS {
        assert_eq!(bi.untyped_paddr_list[i], 0);
        assert_eq!(bi.untyped_size_bits_list[i], 0);
    }
    for j in bi.empty.start.raw()..ROOT_CNODE_SLOTS {
        assert_eq!(st.cnode.slots[j], Slot::empty());
    }
}

#[test]
fn bootstrap_prepares_the_root_thread() {
    let st = boot();
    let t = &st.root_tcb;
    assert_eq!(t.state, ThreadState::Running);
    assert_eq!(t.ctx.pc(), 0x8040_0000);
    assert_eq!(t.ctx.sp(), st.rootserver_stack_paddr + 4096);
    assert_eq!(t.ctx.a(0), st.bootinfo_paddr);
    assert_eq!(t.ctx.a(1), st.ipc_buffer_paddr);
    assert!(matches!(t.cspace_root, Capability::CNode(_)));
    assert_eq!(t.vspace_root, Capability::Null);
    assert_eq!(st.bootinfo.ipc_buffer, st.ipc_buffer_paddr);
    assert_eq!(st.bootinfo.init_thread_cnode_size_bits, 8);
}

#[test]
fn bootstrap_caps_untyped_count_by_the_bootinfo_lists() {
    let st = bootstrap(0x8000_1000, RootserverImage { start: 0x8000_0800, end: 0x8000_0900 }, layout());
    let n = st.bootinfo.untyped.end.raw() - st.bootinfo.untyped.start.raw();
    assert!(n <= MAX_UNTYPED_OBJECTS);
    assert_eq!(st.bootinfo.user_image_frames.end.raw() - st.bootinfo.user_image_frames.start.raw(), 1);
}

fn blank_bootinfo() -> BootInfo {
    let r = SlotRegion { start: CPtr::new(0), end: CPtr::new(0) };
    BootInfo {
        ipc_buffer: 0,
        init_thread_cnode_size_bits: 8,
        empty: r,
        user_image_frames: r,
        untyped: r,
        untyped_paddr_list: [0; MAX_UNTYPED_OBJECTS],
        untyped_size_bits_list: [0; MAX_UNTYPED_OBJECTS],
    }
}

#[test]
fn populate_untyped_caps_past_the_cnode_exports_nothing() {
    let mut cnode = SlotMemory { slots: vec![Slot::empty(); ROOT_CNODE_SLOTS] };
    let mut info = blank_bootinfo();
    populate_untyped_caps(0x8100_0000, 0x8200_0000, ROOT_CNODE_SLOTS + 44, &mut cnode, &mut info);
    assert_eq!(info.untyped.start.raw(), ROOT_CNODE_SLOTS + 44);
    assert_eq!(info.untyped.end.raw(), ROOT_CNODE_SLOTS + 44);
    assert_eq!(info.empty.start.raw(), ROOT_CNODE_SLOTS + 44);
    assert_eq!(info.empty.end.raw(), ROOT_CNODE_SLOTS);
    assert!(cnode.slots.iter().all(|s| *s == Slot::empty()));
}

#[test]
fn populate_untyped_caps_fills_the_tail() {
    let mut cnode = SlotMemory { slots: vec![Slot::empty(); ROOT_CNODE_SLOTS] };
    let mut info = blank_bootinfo();
    populate_untyped_caps(0x8100_0000, 0x8100_3000, ROOT_CNODE_SLOTS - 1, &mut cnode, &mut info);
    assert_eq!(info.untyped.start.raw(), ROOT_CNODE_SLOTS - 1);
    assert_eq!(info.untyped.end.raw(), ROOT_CNODE_SLOTS);
    assert_eq!(info.untyped_paddr_list[0], 0x8100_0000);
    assert_eq!(info.untyped_size_bits_list[0], 13);
}

#[test]
fn boot_arena_blocks_never_overlap() {
    let mut arena = BootArena::new(0x8000_0123, 0x8001_0000);
    let mut blocks = Vec::new();
    let a = arena.alloc_typed(40, 8);
    blocks.push((a, 40));
    let b = arena.alloc_page_paddr();
    blocks.push((b, 4096));
    let c = arena.alloc_slots(3, 64, 64);
    blocks.push((c, 192));
    let d = arena.alloc_page_paddr();
    blocks.push((d, 4096));
    assert_eq!(a, 0x8000_1000);
    assert_eq!(b % 4096, 0);
    assert_eq!(d % 4096, 0);
    assert_eq!(c % 64, 0);
    for w in blocks.windows(2) {
        assert!(w[0].0 + w[0].1 <= w[1].0);
    }
    assert_eq!(arena.cursor(), d + 4096);
    assert!(arena.cursor() <= 0x8001_0000);
}

#[test]
fn boot_arena_records_every_block_for_zero_fill() {
    let mut arena = BootArena::new(0x1001, 0x10000);
    let a = arena.alloc_typed(100, 8);
    let b = arena.alloc_slots(4, 24, 16);
    let c = arena.alloc_page_paddr();
    assert_eq!(
        arena.into_zero_fill(),
        vec![
            ZeroRange { start: a, len: 100 },
            ZeroRange { start: b, len: 96 },
            ZeroRange { start: c, len: 4096 },
        ]
    );
}

#[test]
fn bootstrap_hands_over_the_boot_objects_for_zero_fill() {
    let st = boot();
    assert_eq!(
        st.zero_fill,
        vec![
            ZeroRange { start: st.bootinfo_paddr, len: 4096 },
            ZeroRange { start: st.root_cnode_paddr, len: 64 * ROOT_CNODE_SLOTS },
            ZeroRange { start: st.root_tcb_paddr, len: 360 },
            ZeroRange { start: st.ipc_buffer_paddr, len: PAGE_SIZE },
            ZeroRange { start: st.rootserver_stack_paddr, len: PAGE_SIZE },
        ]
    );
}
