//! Bootstrap: places the first kernel objects, installs the initial
//! capabilities and hands the resource map to the rootserver.
//!
//! Fixed boot-time contract of the root cnode:
//! - slot 0 stays empty; slot 1 holds the root TCB, slot 2 the root cnode
//!   itself, slot 3 IRQ control, slot 4 the BootInfo frame and slot 5 the
//!   IPC buffer frame;
//! - `user_image_frames` starts right after and covers the pages of the
//!   loaded rootserver image;
//! - `untyped` follows and covers the exported untyped regions, which lie
//!   past every object placed at boot and past the rootserver image;
//! - `empty` covers the rest of the cnode, whose slots are all empty.

use vstd::prelude::*;
use vstd::arithmetic::power2::pow2;
use vstd::bits::{low_bits_mask, lemma_usize_low_bits_mask_is_mod};
use crate::arith::{round_up, lemma_pow2_word};
use crate::common::{BootInfo, CPtr, SlotRegion, MAX_UNTYPED_OBJECTS};
use crate::config::{
    PAGE_SIZE,
    MIN_UNTYPED_SIZE_BITS,
    ROOT_CNODE_RADIX_BITS,
    ROOT_CNODE_SLOTS,
    ROOT_CNODE_SLOT_TCB,
    ROOT_CNODE_SLOT_CNODE,
    ROOT_CNODE_SLOT_IRQ_CTRL,
    ROOT_CNODE_SLOT_BOOTINFO_FRAME,
    ROOT_CNODE_SLOT_IPC_BUFFER,
    FIRST_USER_IMAGE_FRAME_SLOT,
};
use crate::kernel::cap::{
    Capability,
    CNodeCap,
    FrameCap,
    IRQControlCap,
    MDBNode,
    Slot,
    SlotMemory,
    TCBCap,
    UntypedCap,
};
use crate::kernel::cap::threads::Tcb;

pub mod mm;
pub mod rootserver;

use rootserver::RootserverImage;

verus! {

broadcast use vstd::array::group_array_axioms;

/// The capability to the root cnode: its slots start at address 0 of the
/// slot memory, and its guard takes every address bit above its radix.
pub open spec fn root_cnode_cap() -> CNodeCap {
    CNodeCap {
        storage: 0,
        radix_bits: ROOT_CNODE_RADIX_BITS,
        guard_size: (usize::BITS - ROOT_CNODE_RADIX_BITS) as u8,
        guard: 0,
    }
}

/// A slot holding `cap` with no derivation links.
pub open spec fn fresh_slot(cap: Capability) -> Slot {
    Slot { cap: cap, mdb: MDBNode::spec_empty() }
}

/// A page frame capability.
pub open spec fn page_frame(paddr: usize) -> Capability {
    Capability::Frame(FrameCap { paddr: paddr, size_bits: MIN_UNTYPED_SIZE_BITS })
}

/// A slot region `[start, end)` as a pair of numbers.
pub open spec fn region(r: SlotRegion) -> (usize, usize) {
    (r.start@, r.end@)
}

/// The fixed slots after `install_initial_caps`.
pub open spec fn fixed_slots_ok(s: Seq<Slot>, tcb_paddr: usize, bootinfo_paddr: usize, ipc_paddr: usize) -> bool {
    &&& s[ROOT_CNODE_SLOT_TCB as int] == fresh_slot(Capability::Tcb(TCBCap { ptr: tcb_paddr }))
    &&& s[ROOT_CNODE_SLOT_CNODE as int] == fresh_slot(Capability::CNode(root_cnode_cap()))
    &&& s[ROOT_CNODE_SLOT_IRQ_CTRL as int] == fresh_slot(Capability::IRQControl(IRQControlCap))
    &&& s[ROOT_CNODE_SLOT_BOOTINFO_FRAME as int] == fresh_slot(page_frame(bootinfo_paddr))
    &&& s[ROOT_CNODE_SLOT_IPC_BUFFER as int] == fresh_slot(page_frame(ipc_paddr))
}

/// Installs the fixed boot-time capabilities into the root cnode and makes
/// `tcb` a fresh thread whose cspace root is the root cnode. The TCB lives
/// at `tcb_paddr`; the root cnode's slots start at address 0 of `cnode`.
pub fn install_initial_caps(
    cnode: &mut SlotMemory,
    tcb: &mut Tcb,
    tcb_paddr: usize,
    bootinfo_paddr: usize,
    ipc_paddr: usize,
)
    requires
        old(cnode)@.len() == ROOT_CNODE_SLOTS,
    ensures
        final(cnode)@.len() == ROOT_CNODE_SLOTS,
        fixed_slots_ok(final(cnode)@, tcb_paddr, bootinfo_paddr, ipc_paddr),
        forall|i: int| 0 <= i < ROOT_CNODE_SLOTS && !(1 <= i <= 5) ==> final(cnode)@[i] == old(cnode)@[i],
        final(tcb).cspace_root == Capability::CNode(root_cnode_cap()),
        final(tcb).vspace_root is Null,
        forall|i: int| 0 <= i < 31 ==> final(tcb).ctx.x@[i] == 0,
        final(tcb).ctx.sepc == 0,
        !final(tcb).ctx.supervisor,
        !final(tcb).ctx.interrupt,
        final(tcb).state == crate::kernel::cap::threads::ThreadState::Inactive,
{
    let root_cnode_cap = Capability::CNode(CNodeCap {
        storage: 0,
        radix_bits: ROOT_CNODE_RADIX_BITS,
        guard_size: usize::BITS as u8 - ROOT_CNODE_RADIX_BITS,
        guard: 0,
    });

    let mut fresh = Tcb::empty();
    fresh.cspace_root = root_cnode_cap;
    *tcb = fresh;

    cnode.write(ROOT_CNODE_SLOT_CNODE, Slot { cap: root_cnode_cap, mdb: MDBNode::empty() });
    cnode.write(ROOT_CNODE_SLOT_TCB, Slot { cap: Capability::Tcb(TCBCap { ptr: tcb_paddr }), mdb: MDBNode::empty() });
    cnode.write(ROOT_CNODE_SLOT_IRQ_CTRL, Slot { cap: Capability::IRQControl(IRQControlCap), mdb: MDBNode::empty() });
    cnode.write(
        ROOT_CNODE_SLOT_BOOTINFO_FRAME,
        Slot { cap: Capability::Frame(FrameCap { paddr: bootinfo_paddr, size_bits: MIN_UNTYPED_SIZE_BITS }), mdb: MDBNode::empty() },
    );
    cnode.write(
        ROOT_CNODE_SLOT_IPC_BUFFER,
        Slot { cap: Capability::Frame(FrameCap { paddr: ipc_paddr, size_bits: MIN_UNTYPED_SIZE_BITS }), mdb: MDBNode::empty() },
    );
}

/// First page of the rootserver image.
pub open spec fn image_first_page(image: RootserverImage) -> nat {
    (image.start - image.start % PAGE_SIZE) as nat
}

/// Number of pages that the rootserver image touches.
pub open spec fn image_frame_count(image: RootserverImage) -> nat {
    let first = image_first_page(image);
    let last = round_up(image.end as nat, PAGE_SIZE as nat);
    if last >= first {
        ((last - first) as nat / PAGE_SIZE as nat) as nat
    } else {
        0
    }
}

/// The frames recorded for the rootserver image cover exactly its pages:
/// every byte of `[start, end)` lies in one of the `image_frame_count`
/// pages counted from the page holding `start`, and every one of those
/// pages starts below `end`, so none lies at or past `end` rounded up to a
/// page. An image that ends at or before its first page has no frames.
pub proof fn lemma_image_frames_cover_image(image: RootserverImage)
    ensures
        ({
            let first = image.start - image.start % PAGE_SIZE;
            let n = image_frame_count(image);
            &&& image.end <= first ==> n == 0
            &&& image.end > first ==> n > 0 && n * PAGE_SIZE >= image.end - first
            &&& forall|i: int| 0 <= i < n ==> first + #[trigger] (i * PAGE_SIZE) < image.end
            &&& forall|i: int| 0 <= i < n ==> (#[trigger] page_frame((first + i * PAGE_SIZE) as usize) matches
                Capability::Frame(f) && f.paddr == first + i * PAGE_SIZE && pow2(f.size_bits as nat) == PAGE_SIZE)
        }),
{
    lemma_pow2_word();
    let p: int = PAGE_SIZE as int;
    let first: int = image.start - image.start % PAGE_SIZE;
    let e: int = image.end as int;
    vstd::arithmetic::div_mod::lemma_fundamental_div_mod(image.start as int, p);
    assert(first == p * (image.start as int / p));
    let qf: int = image.start as int / p;
    crate::arith::lemma_round_up(e, p);
    let r: int = round_up(image.end as nat, PAGE_SIZE as nat) as int;
    vstd::arithmetic::div_mod::lemma_fundamental_div_mod(r, p);
    let qr: int = r / p;
    assert(r == p * qr);
    let n = image_frame_count(image);
    if r >= first {
        assert(r - first == p * (qr - qf)) by (nonlinear_arith)
            requires r == p * qr, first == p * qf;
        vstd::arithmetic::div_mod::lemma_div_multiples_vanish(qr - qf, p);
        assert((r - first) / p == qr - qf);
        assert(n == qr - qf);
        assert(n * p == r - first) by (nonlinear_arith)
            requires n == qr - qf, r - first == p * (qr - qf);
        assert forall|i: int| 0 <= i < n implies first + #[trigger] (i * PAGE_SIZE) < image.end by {
            assert(i * p <= (n - 1) * p) by (nonlinear_arith)
                requires 0 <= i < n, p > 0;
            assert((n - 1) * p == n * p - p) by (nonlinear_arith);
        }
        if e > first {
            assert(n > 0) by (nonlinear_arith)
                requires n * p == r - first, r >= e, e > first, p > 0, n >= 0;
        } else {
            assert(r - first < p);
            assert(n == 0) by (nonlinear_arith)
                requires n * p == r - first, r - first < p, p > 0, n >= 0;
        }
    } else {
        assert(n == 0);
    }
}

/// Writes a frame capability for each page of the rootserver image into the
/// slots from `FIRST_USER_IMAGE_FRAME_SLOT` on, records that region in
/// `bootinfo.user_image_frames`, and returns the slot after the last one.
pub fn populate_user_image_frame_caps(image: RootserverImage, cnode: &mut SlotMemory, bootinfo: &mut BootInfo) -> (end: usize)
    requires
        old(cnode)@.len() == ROOT_CNODE_SLOTS,
        image.end + PAGE_SIZE - 1 <= usize::MAX,
        FIRST_USER_IMAGE_FRAME_SLOT + image_frame_count(image) <= ROOT_CNODE_SLOTS,
    ensures
        end == FIRST_USER_IMAGE_FRAME_SLOT + image_frame_count(image),
        final(cnode)@.len() == ROOT_CNODE_SLOTS,
        forall|i: int| 0 <= i < image_frame_count(image) ==> #[trigger] final(cnode)@[FIRST_USER_IMAGE_FRAME_SLOT + i]
            == fresh_slot(page_frame((image_first_page(image) + i * PAGE_SIZE) as usize)),
        forall|i: int| 0 <= i < ROOT_CNODE_SLOTS && !(FIRST_USER_IMAGE_FRAME_SLOT <= i < end) ==> final(cnode)@[i] == old(cnode)@[i],
        region(final(bootinfo).user_image_frames) == (FIRST_USER_IMAGE_FRAME_SLOT, end),
        final(bootinfo).empty == old(bootinfo).empty,
        final(bootinfo).untyped == old(bootinfo).untyped,
        final(bootinfo).ipc_buffer == old(bootinfo).ipc_buffer,
        final(bootinfo).init_thread_cnode_size_bits == old(bootinfo).init_thread_cnode_size_bits,
        final(bootinfo).untyped_paddr_list == old(bootinfo).untyped_paddr_list,
        final(bootinfo).untyped_size_bits_list == old(bootinfo).untyped_size_bits_list,
{
    proof {
        lemma_pow2_word();
        crate::arith::lemma_page_is_power_of_two();
        lemma_usize_low_bits_mask_is_mod(image.start, 12);
    }
    let start = FIRST_USER_IMAGE_FRAME_SLOT;
    let mask: usize = PAGE_SIZE - 1;
    assert(mask == low_bits_mask(12));
    let s = image.start;
    assert((s & !mask) + (s & mask) == s) by (bit_vector);
    let image_start = s & !mask;
    let image_end = mm::BootArena::align_up(image.end, PAGE_SIZE);
    let frame_count = image_end.saturating_sub(image_start) / PAGE_SIZE;
    let end = start + frame_count;

    let mut i: usize = 0;
    while i < frame_count
        invariant
            i <= frame_count,
            frame_count == image_frame_count(image),
            image_start == image_first_page(image),
            end == start + frame_count,
            start == FIRST_USER_IMAGE_FRAME_SLOT,
            end <= ROOT_CNODE_SLOTS,
            image_start + frame_count * PAGE_SIZE <= usize::MAX,
            cnode@.len() == ROOT_CNODE_SLOTS,
            forall|k: int| 0 <= k < i ==> #[trigger] cnode@[start + k]
                == fresh_slot(page_frame((image_start + k * PAGE_SIZE) as usize)),
            forall|k: int| 0 <= k < ROOT_CNODE_SLOTS && !(start <= k < start + i) ==> cnode@[k] == old(cnode)@[k],
        decreases frame_count - i,
    {
        assert(image_start + i * PAGE_SIZE <= usize::MAX) by (nonlinear_arith)
            requires
                i < frame_count,
                image_start + frame_count * PAGE_SIZE <= usize::MAX,
        ;
        let paddr = image_start + i * PAGE_SIZE;
        cnode.write(
            start + i,
            Slot { cap: Capability::Frame(FrameCap { paddr, size_bits: MIN_UNTYPED_SIZE_BITS }), mdb: MDBNode::empty() },
        );
        i = i + 1;
    }

    bootinfo.user_image_frames = SlotRegion { start: CPtr::new(start), end: CPtr::new(end) };
    end
}

/// How many untyped capabilities bootstrap exports when they start at slot
/// `first`: no more than the BootInfo lists hold, nor than the slots left.
pub open spec fn max_untyped(first: nat) -> nat {
    let left: nat = if first <= ROOT_CNODE_SLOTS { (ROOT_CNODE_SLOTS - first) as nat } else { 0 };
    if MAX_UNTYPED_OBJECTS < left {
        MAX_UNTYPED_OBJECTS as nat
    } else {
        left
    }
}

/// The untyped capability for a region `(paddr, size_bits)`, nothing used yet.
pub open spec fn untyped_cap(b: (usize, u8)) -> Capability {
    Capability::Untyped(UntypedCap { paddr: b.0, size_bits: b.1, is_device: false, free_offset: 0 })
}

/// Cuts `[untyped_start, free_memory_end)` into untyped regions, writes an
/// untyped capability for each into the slots from `first_untyped_slot` on
/// and lists them in `bootinfo`; the slots after them form the empty region.
pub fn populate_untyped_caps(
    untyped_start: usize,
    free_memory_end: usize,
    first_untyped_slot: usize,
    cnode: &mut SlotMemory,
    bootinfo: &mut BootInfo,
)
    requires
        old(cnode)@.len() == ROOT_CNODE_SLOTS,
    ensures
        ({
            let blocks = mm::stream_blocks(untyped_start as nat, free_memory_end as nat, max_untyped(first_untyped_slot as nat));
            let n = blocks.len();
            &&& n <= max_untyped(first_untyped_slot as nat)
            &&& final(cnode)@.len() == ROOT_CNODE_SLOTS
            &&& forall|i: int| 0 <= i < n ==> #[trigger] final(cnode)@[first_untyped_slot + i] == fresh_slot(untyped_cap(blocks[i]))
            &&& forall|k: int| 0 <= k < ROOT_CNODE_SLOTS && !(first_untyped_slot <= k < first_untyped_slot + n)
                ==> final(cnode)@[k] == old(cnode)@[k]
            &&& forall|i: int| 0 <= i < n ==> #[trigger] final(bootinfo).untyped_paddr_list@[i] == blocks[i].0
                && final(bootinfo).untyped_size_bits_list@[i] == blocks[i].1
            &&& forall|i: int| n <= i < MAX_UNTYPED_OBJECTS ==> #[trigger] final(bootinfo).untyped_paddr_list@[i]
                == old(bootinfo).untyped_paddr_list@[i] && final(bootinfo).untyped_size_bits_list@[i]
                == old(bootinfo).untyped_size_bits_list@[i]
            &&& region(final(bootinfo).empty) == ((first_untyped_slot + n) as usize, ROOT_CNODE_SLOTS)
            &&& region(final(bootinfo).untyped) == (first_untyped_slot, (first_untyped_slot + n) as usize)
        }),
        final(bootinfo).user_image_frames == old(bootinfo).user_image_frames,
        final(bootinfo).ipc_buffer == old(bootinfo).ipc_buffer,
        final(bootinfo).init_thread_cnode_size_bits == old(bootinfo).init_thread_cnode_size_bits,
{
    let left = ROOT_CNODE_SLOTS.saturating_sub(first_untyped_slot);
    let limit = if MAX_UNTYPED_OBJECTS < left { MAX_UNTYPED_OBJECTS } else { left };

    let mut stream = mm::UntypedStream { current_paddr: untyped_start, end_paddr: free_memory_end };
    let ghost blocks = mm::stream_blocks(untyped_start as nat, free_memory_end as nat, limit as nat);
    let mut count: usize = 0;
    proof {
        assert(blocks.subrange(0, blocks.len() as int) =~= blocks);
    }
    while count < limit
        invariant
            count <= limit,
            limit == max_untyped(first_untyped_slot as nat),
            limit <= MAX_UNTYPED_OBJECTS,
            limit > 0 ==> first_untyped_slot + limit <= ROOT_CNODE_SLOTS,
            blocks == mm::stream_blocks(untyped_start as nat, free_memory_end as nat, limit as nat),
            stream.end_paddr == free_memory_end,
            count <= blocks.len(),
            blocks.subrange(count as int, blocks.len() as int) == mm::stream_blocks(
                stream.current_paddr as nat,
                free_memory_end as nat,
                (limit - count) as nat,
            ),
            cnode@.len() == ROOT_CNODE_SLOTS,
            forall|i: int| 0 <= i < count ==> #[trigger] cnode@[first_untyped_slot + i] == fresh_slot(untyped_cap(blocks[i])),
            forall|k: int| 0 <= k < ROOT_CNODE_SLOTS && !(first_untyped_slot <= k < first_untyped_slot + count)
                ==> cnode@[k] == old(cnode)@[k],
            forall|i: int| 0 <= i < count ==> #[trigger] bootinfo.untyped_paddr_list@[i] == blocks[i].0
                && bootinfo.untyped_size_bits_list@[i] == blocks[i].1,
            forall|i: int| count <= i < MAX_UNTYPED_OBJECTS ==> #[trigger] bootinfo.untyped_paddr_list@[i]
                == old(bootinfo).untyped_paddr_list@[i] && bootinfo.untyped_size_bits_list@[i]
                == old(bootinfo).untyped_size_bits_list@[i],
            bootinfo.user_image_frames == old(bootinfo).user_image_frames,
            bootinfo.ipc_buffer == old(bootinfo).ipc_buffer,
            bootinfo.init_thread_cnode_size_bits == old(bootinfo).init_thread_cnode_size_bits,
            bootinfo.empty == old(bootinfo).empty,
            bootinfo.untyped == old(bootinfo).untyped,
        ensures
            count == blocks.len(),
        decreases limit - count,
    {
        let ghost cur = stream.current_paddr;
        match stream.next() {
            None => {
                break;
            },
            Some((paddr, size_bits)) => {
                let ghost tail = mm::stream_blocks(stream.current_paddr as nat, free_memory_end as nat, (limit - count - 1) as nat);
                assert(blocks.subrange(count as int, blocks.len() as int) == seq![(paddr, size_bits)] + tail);
                assert((seq![(paddr, size_bits)] + tail)[0] == (paddr, size_bits));
                assert(blocks.subrange(count as int, blocks.len() as int)[0] == blocks[count as int]);
                assert(blocks[count as int] == (paddr, size_bits));
                assert forall|j: int| 0 <= j < tail.len() implies #[trigger] blocks.subrange(count + 1, blocks.len() as int)[j] == tail[j] by {
                    assert(blocks.subrange(count as int, blocks.len() as int)[j + 1] == blocks[count + 1 + j]);
                    assert((seq![(paddr, size_bits)] + tail)[j + 1] == tail[j]);
                }
                assert(blocks.subrange(count + 1, blocks.len() as int) =~= tail);
                cnode.write(
                    first_untyped_slot + count,
                    Slot {
                        cap: Capability::Untyped(UntypedCap { paddr, size_bits, is_device: false, free_offset: 0 }),
                        mdb: MDBNode::empty(),
                    },
                );
                let ghost paddrs = bootinfo.untyped_paddr_list@;
                let ghost sizes = bootinfo.untyped_size_bits_list@;
                assert(paddrs.len() == MAX_UNTYPED_OBJECTS && sizes.len() == MAX_UNTYPED_OBJECTS);
                assert(forall|i: int| 0 <= i < count ==> paddrs[i] == blocks[i].0 && sizes[i] == blocks[i].1);
                assert(forall|i: int| count <= i < MAX_UNTYPED_OBJECTS ==> paddrs[i] == old(bootinfo).untyped_paddr_list@[i]
                    && sizes[i] == old(bootinfo).untyped_size_bits_list@[i]);
                bootinfo.untyped_paddr_list[count] = paddr;
                bootinfo.untyped_size_bits_list[count] = size_bits;
                assert(bootinfo.untyped_paddr_list@ == paddrs.update(count as int, paddr));
                assert(bootinfo.untyped_size_bits_list@ == sizes.update(count as int, size_bits));
                assert forall|i: int| 0 <= i < count + 1 implies #[trigger] bootinfo.untyped_paddr_list@[i] == blocks[i].0
                    && bootinfo.untyped_size_bits_list@[i] == blocks[i].1 by {
                    if i < count {
                        assert(paddrs[i] == blocks[i].0 && sizes[i] == blocks[i].1);
                    }
                }
                assert forall|i: int| count + 1 <= i < MAX_UNTYPED_OBJECTS implies #[trigger] bootinfo.untyped_paddr_list@[i]
                    == old(bootinfo).untyped_paddr_list@[i] && bootinfo.untyped_size_bits_list@[i]
                    == old(bootinfo).untyped_size_bits_list@[i] by {
                    assert(paddrs[i] == old(bootinfo).untyped_paddr_list@[i]);
                }
                count = count + 1;
            },
        }
    }

    bootinfo.empty = SlotRegion { start: CPtr::new(first_untyped_slot + count), end: CPtr::new(ROOT_CNODE_SLOTS) };
    bootinfo.untyped = SlotRegion { start: CPtr::new(first_untyped_slot), end: CPtr::new(first_untyped_slot + count) };
}

/// Sizes and alignments of the objects that bootstrap places: the BootInfo
/// page, one cnode slot and the thread control block.
#[derive(Debug, Copy, Clone)]
pub struct BootObjectLayout {
    pub bootinfo_size: usize,
    pub bootinfo_align: usize,
    pub slot_size: usize,
    pub slot_align: usize,
    pub tcb_size: usize,
    pub tcb_align: usize,
}

/// Where bootstrap places its objects, in order: the BootInfo, the root
/// cnode's slots, the root TCB, the IPC buffer page and the rootserver stack
/// page, then the start of the untyped memory (the next page boundary);
/// `None` when they do not all fit in the free memory window.
pub open spec fn boot_plan(kernel_end: nat, image: RootserverImage, l: BootObjectLayout) -> Option<(nat, nat, nat, nat, nat, nat)> {
    let (free_start, free_end) = mm::free_memory_window(kernel_end, image.end as nat);
    let c0 = round_up(free_start, PAGE_SIZE as nat);
    let bootinfo = round_up(c0, l.bootinfo_align as nat);
    let c1: nat = bootinfo + l.bootinfo_size as nat;
    let cnode = round_up(c1, l.slot_align as nat);
    let c2: nat = cnode + l.slot_size as nat * ROOT_CNODE_SLOTS as nat;
    let tcb = round_up(c2, l.tcb_align as nat);
    let c3: nat = tcb + l.tcb_size as nat;
    let ipc = round_up(c3, PAGE_SIZE as nat);
    let c4: nat = ipc + PAGE_SIZE as nat;
    let stack = round_up(c4, PAGE_SIZE as nat);
    let c5: nat = stack + PAGE_SIZE as nat;
    if mm::arena_step(c0, free_end, l.bootinfo_size as nat, l.bootinfo_align as nat) is Some
        && mm::arena_step(c1, free_end, l.slot_size as nat * ROOT_CNODE_SLOTS as nat, l.slot_align as nat) is Some
        && mm::arena_step(c2, free_end, l.tcb_size as nat, l.tcb_align as nat) is Some
        && mm::arena_step(c3, free_end, PAGE_SIZE as nat, PAGE_SIZE as nat) is Some
        && mm::arena_step(c4, free_end, PAGE_SIZE as nat, PAGE_SIZE as nat) is Some
    {
        Some((bootinfo, cnode, tcb, ipc, stack, round_up(c5, PAGE_SIZE as nat)))
    } else {
        None
    }
}

/// The kernel and rootserver images leave a free memory window in which
/// every boot object fits, and the rootserver image's frame capabilities
/// fit in the root cnode: exactly the inputs on which bootstrap succeeds.
pub open spec fn boot_fits(kernel_end: nat, image: RootserverImage, l: BootObjectLayout) -> bool {
    &&& mm::free_memory_fits(kernel_end, image.end as nat)
    &&& boot_plan(kernel_end, image, l) is Some
    &&& FIRST_USER_IMAGE_FRAME_SLOT + image_frame_count(image) <= ROOT_CNODE_SLOTS
}

/// Everything bootstrap produced: the root cnode's slots, the root thread,
/// the BootInfo to hand over, and where each boot object lives.
pub struct BootState {
    /// Slot memory holding the root cnode at address 0.
    pub cnode: SlotMemory,
    /// The root thread, ready to enter the rootserver.
    pub root_tcb: Tcb,
    /// The resource map for the rootserver.
    pub bootinfo: BootInfo,
    pub free_memory_start: usize,
    pub free_memory_end: usize,
    pub bootinfo_paddr: usize,
    pub root_cnode_paddr: usize,
    pub root_tcb_paddr: usize,
    pub ipc_buffer_paddr: usize,
    pub rootserver_stack_paddr: usize,
    /// Start of the memory handed out as untyped regions.
    pub untyped_start: usize,
    /// The boot objects' memory, which must be zero-filled before the
    /// rootserver runs.
    pub zero_fill: Vec<mm::ZeroRange>,
}

/// The ranges bootstrap leaves to zero-fill: the BootInfo, the root cnode's
/// slots, the root TCB, the IPC buffer page and the rootserver stack page,
/// each exactly as large as the arena allocated it.
pub open spec fn boot_zero_fill(st: BootState, l: BootObjectLayout) -> Seq<mm::ZeroRange> {
    seq![
        mm::ZeroRange { start: st.bootinfo_paddr, len: l.bootinfo_size },
        mm::ZeroRange { start: st.root_cnode_paddr, len: (l.slot_size * ROOT_CNODE_SLOTS) as usize },
        mm::ZeroRange { start: st.root_tcb_paddr, len: l.tcb_size },
        mm::ZeroRange { start: st.ipc_buffer_paddr, len: PAGE_SIZE },
        mm::ZeroRange { start: st.rootserver_stack_paddr, len: PAGE_SIZE },
    ]
}

/// The untyped regions bootstrap exports for an image of that many frames.
pub open spec fn boot_blocks(st: BootState, image: RootserverImage) -> Seq<(usize, u8)> {
    mm::stream_blocks(
        st.untyped_start as nat,
        st.free_memory_end as nat,
        max_untyped((FIRST_USER_IMAGE_FRAME_SLOT + image_frame_count(image)) as nat),
    )
}

/// The boot contract between the kernel and the rootserver.
pub open spec fn boot_contract(st: BootState, image: RootserverImage) -> bool {
    let s = st.cnode@;
    let bi = st.bootinfo;
    let first = FIRST_USER_IMAGE_FRAME_SLOT + image_frame_count(image);
    let blocks = boot_blocks(st, image);
    let n = blocks.len();
    &&& s.len() == ROOT_CNODE_SLOTS
    &&& st.cnode.wf()
    &&& st.untyped_start as nat % PAGE_SIZE as nat == 0
    &&& s[0] == Slot::spec_empty()
    &&& fixed_slots_ok(s, st.root_tcb_paddr, st.bootinfo_paddr, st.ipc_buffer_paddr)
    &&& forall|i: int| 0 <= i < image_frame_count(image) ==> #[trigger] s[FIRST_USER_IMAGE_FRAME_SLOT + i]
        == fresh_slot(page_frame((image_first_page(image) + i * PAGE_SIZE) as usize))
    &&& forall|i: int| 0 <= i < n ==> #[trigger] s[first + i] == fresh_slot(untyped_cap(blocks[i]))
    &&& forall|j: int| first + n <= j < ROOT_CNODE_SLOTS ==> #[trigger] s[j] == Slot::spec_empty()
    &&& region(bi.user_image_frames) == (FIRST_USER_IMAGE_FRAME_SLOT, first as usize)
    &&& region(bi.untyped) == (first as usize, (first + n) as usize)
    &&& region(bi.empty) == ((first + n) as usize, ROOT_CNODE_SLOTS)
    &&& forall|i: int| 0 <= i < n ==> #[trigger] bi.untyped_paddr_list@[i] == blocks[i].0
        && bi.untyped_size_bits_list@[i] == blocks[i].1
    &&& forall|i: int| n <= i < MAX_UNTYPED_OBJECTS ==> #[trigger] bi.untyped_paddr_list@[i] == 0
        && bi.untyped_size_bits_list@[i] == 0
    &&& bi.ipc_buffer == st.ipc_buffer_paddr
    &&& bi.init_thread_cnode_size_bits == ROOT_CNODE_RADIX_BITS
    &&& st.root_tcb.cspace_root == Capability::CNode(root_cnode_cap())
    &&& st.root_tcb.vspace_root is Null
    &&& st.root_tcb.state == crate::kernel::cap::threads::ThreadState::Running
    &&& rootserver::rootserver_context_ok(
        st.root_tcb.ctx,
        image,
        st.rootserver_stack_paddr as nat,
        st.bootinfo_paddr,
        st.ipc_buffer_paddr,
    )
}

/// The boot objects sit where `boot_plan` puts them.
pub open spec fn boot_layout_ok(st: BootState, kernel_end: nat, image: RootserverImage, l: BootObjectLayout) -> bool {
    let plan = boot_plan(kernel_end, image, l)->Some_0;
    &&& (st.free_memory_start as nat, st.free_memory_end as nat) == mm::free_memory_window(kernel_end, image.end as nat)
    &&& st.bootinfo_paddr == plan.0
    &&& st.root_cnode_paddr == plan.1
    &&& st.root_tcb_paddr == plan.2
    &&& st.ipc_buffer_paddr == plan.3
    &&& st.rootserver_stack_paddr == plan.4
    &&& st.untyped_start == plan.5
}

/// Whether bootstrap can run for these images and object layout: the
/// executable form of `boot_fits`, for callers to test before `bootstrap`.
pub fn boot_resources_fit(kernel_end: usize, image: RootserverImage, l: BootObjectLayout) -> (ok: bool)
    ensures
        ok == boot_fits(kernel_end as nat, image, l),
{
    proof {
        lemma_pow2_word();
        crate::arith::lemma_page_is_power_of_two();
    }
    let top = if kernel_end < image.end { image.end } else { kernel_end };
    if top > usize::MAX - (PAGE_SIZE - 1) {
        return false;
    }
    if kernel_end > usize::MAX - crate::config::EARLY_BOOT_MEMORY_SIZE {
        return false;
    }
    let free_start = mm::BootArena::align_up(top, PAGE_SIZE);
    let free_end = kernel_end + crate::config::EARLY_BOOT_MEMORY_SIZE;
    if free_start > free_end {
        return false;
    }
    proof {
        crate::arith::lemma_round_up(top as int, PAGE_SIZE as int);
        lemma_page_end_room(free_start as nat);
    }
    let c0 = mm::BootArena::align_up(free_start, PAGE_SIZE);
    let c1 = match mm::arena_step_of(c0, free_end, l.bootinfo_size, l.bootinfo_align) {
        Some(c) => c,
        None => {
            return false;
        },
    };
    let slot_bytes = match l.slot_size.checked_mul(ROOT_CNODE_SLOTS) {
        Some(b) => b,
        None => {
            assert(mm::arena_step(c1 as nat, free_end as nat, l.slot_size as nat * ROOT_CNODE_SLOTS as nat, l.slot_align as nat) is None);
            return false;
        },
    };
    let c2 = match mm::arena_step_of(c1, free_end, slot_bytes, l.slot_align) {
        Some(c) => c,
        None => {
            return false;
        },
    };
    let c3 = match mm::arena_step_of(c2, free_end, l.tcb_size, l.tcb_align) {
        Some(c) => c,
        None => {
            return false;
        },
    };
    let c4 = match mm::arena_step_of(c3, free_end, PAGE_SIZE, PAGE_SIZE) {
        Some(c) => c,
        None => {
            return false;
        },
    };
    if mm::arena_step_of(c4, free_end, PAGE_SIZE, PAGE_SIZE).is_none() {
        return false;
    }
    let image_start = image.start - image.start % PAGE_SIZE;
    let image_end = mm::BootArena::align_up(image.end, PAGE_SIZE);
    let frame_count = image_end.saturating_sub(image_start) / PAGE_SIZE;
    frame_count <= ROOT_CNODE_SLOTS - FIRST_USER_IMAGE_FRAME_SLOT
}

/// Boots the kernel for a kernel image ending at `kernel_end` and a
/// rootserver image loaded at `rootserver`: places the boot objects in the
/// free memory window, installs the initial capabilities, exports the rest
/// of the window as untyped regions, fills in the BootInfo and prepares the
/// root thread to enter the rootserver.
pub fn bootstrap(kernel_end: usize, rootserver: RootserverImage, layout: BootObjectLayout) -> (st: BootState)
    requires
        boot_fits(kernel_end as nat, rootserver, layout),
    ensures
        boot_layout_ok(st, kernel_end as nat, rootserver, layout),
        boot_contract(st, rootserver),
        st.zero_fill@ == boot_zero_fill(st, layout),
{
    let (free_memory_start, free_memory_end) = mm::probe_free_memory(kernel_end, rootserver);
    let mut arena = mm::BootArena::new(free_memory_start, free_memory_end);

    let bootinfo_paddr = arena.alloc_typed(layout.bootinfo_size, layout.bootinfo_align);
    let root_cnode_paddr = arena.alloc_slots(ROOT_CNODE_SLOTS, layout.slot_size, layout.slot_align);
    let root_tcb_paddr = arena.alloc_typed(layout.tcb_size, layout.tcb_align);
    let ipc_buffer_paddr = arena.alloc_page_paddr();
    let rootserver_stack_paddr = arena.alloc_page_paddr();

    let mut slots: Vec<Slot> = Vec::new();
    let mut i: usize = 0;
    while i < ROOT_CNODE_SLOTS
        invariant
            i <= ROOT_CNODE_SLOTS,
            slots@.len() == i,
            forall|k: int| 0 <= k < i ==> #[trigger] slots@[k] == Slot::spec_empty(),
        decreases ROOT_CNODE_SLOTS - i,
    {
        slots.push(Slot::empty());
        i = i + 1;
    }
    let mut cnode = SlotMemory { slots };
    let mut root_tcb = Tcb::empty();
    let mut bootinfo = BootInfo {
        ipc_buffer: 0,
        init_thread_cnode_size_bits: 0,
        empty: SlotRegion { start: CPtr::new(0), end: CPtr::new(0) },
        user_image_frames: SlotRegion { start: CPtr::new(0), end: CPtr::new(0) },
        untyped: SlotRegion { start: CPtr::new(0), end: CPtr::new(0) },
        untyped_paddr_list: [0usize; MAX_UNTYPED_OBJECTS],
        untyped_size_bits_list: [0u8; MAX_UNTYPED_OBJECTS],
    };

    install_initial_caps(&mut cnode, &mut root_tcb, root_tcb_paddr, bootinfo_paddr, ipc_buffer_paddr);

    proof {
        crate::arith::lemma_page_is_power_of_two();
        lemma_pow2_word();
        lemma_page_end_room(arena.spec_cursor() as nat);
    }
    let untyped_start = mm::BootArena::align_up(arena.cursor(), PAGE_SIZE);
    let first_untyped_slot = populate_user_image_frame_caps(rootserver, &mut cnode, &mut bootinfo);
    populate_untyped_caps(untyped_start, free_memory_end, first_untyped_slot, &mut cnode, &mut bootinfo);

    bootinfo.ipc_buffer = ipc_buffer_paddr;
    bootinfo.init_thread_cnode_size_bits = ROOT_CNODE_RADIX_BITS;

    rootserver::prepare_rootserver_context(
        &mut root_tcb,
        rootserver,
        rootserver_stack_paddr,
        bootinfo_paddr,
        ipc_buffer_paddr,
    );

    let st = BootState {
        cnode,
        root_tcb,
        bootinfo,
        free_memory_start,
        free_memory_end,
        bootinfo_paddr,
        root_cnode_paddr,
        root_tcb_paddr,
        ipc_buffer_paddr,
        rootserver_stack_paddr,
        untyped_start,
        zero_fill: arena.into_zero_fill(),
    };
    proof {
        crate::arith::lemma_round_up(arena.spec_cursor() as int, PAGE_SIZE as int);
        lemma_boot_slots_wf(st, rootserver);
    }
    st
}

/// The slots that bootstrap fills hold only well-formed capabilities.
proof fn lemma_boot_slots_wf(st: BootState, image: RootserverImage)
    requires
        st.untyped_start as nat % PAGE_SIZE as nat == 0,
        ({
            let s = st.cnode@;
            let first = FIRST_USER_IMAGE_FRAME_SLOT + image_frame_count(image);
            let blocks = boot_blocks(st, image);
            let n = blocks.len();
            &&& s.len() == ROOT_CNODE_SLOTS
            &&& first <= ROOT_CNODE_SLOTS
            &&& first + n <= ROOT_CNODE_SLOTS
            &&& s[0] == Slot::spec_empty()
            &&& fixed_slots_ok(s, st.root_tcb_paddr, st.bootinfo_paddr, st.ipc_buffer_paddr)
            &&& forall|i: int| 0 <= i < image_frame_count(image) ==> #[trigger] s[FIRST_USER_IMAGE_FRAME_SLOT + i]
                == fresh_slot(page_frame((image_first_page(image) + i * PAGE_SIZE) as usize))
            &&& forall|i: int| 0 <= i < n ==> #[trigger] s[first + i] == fresh_slot(untyped_cap(blocks[i]))
            &&& forall|j: int| first + n <= j < ROOT_CNODE_SLOTS ==> #[trigger] s[j] == Slot::spec_empty()
        }),
    ensures
        st.cnode.wf(),
{
    let s = st.cnode@;
    let first = FIRST_USER_IMAGE_FRAME_SLOT + image_frame_count(image);
    let blocks = boot_blocks(st, image);
    let n = blocks.len();
    lemma_pow2_word();
    mm::lemma_stream_blocks(
        st.untyped_start as nat,
        st.free_memory_end as nat,
        max_untyped(first as nat),
    );
    assert(pow2(8) == 256) by {
        vstd::arithmetic::power2::lemma2_to64();
    }
    assert forall|i: int| 0 <= i < s.len() implies #[trigger] crate::kernel::cap::cap_wf(s[i].cap, s.len()) by {
        if FIRST_USER_IMAGE_FRAME_SLOT <= i < first {
            let k = i - FIRST_USER_IMAGE_FRAME_SLOT;
            assert(s[FIRST_USER_IMAGE_FRAME_SLOT + k] == fresh_slot(page_frame((image_first_page(image) + k * PAGE_SIZE) as usize)));
        } else if first <= i < first + n {
            let k = i - first;
            assert(s[first + k] == fresh_slot(untyped_cap(blocks[k])));
            assert(mm::block_ok(blocks[k], st.untyped_start as nat, st.free_memory_end as nat));
            lemma_page_end_room((blocks[k].0 + pow2(blocks[k].1 as nat)) as nat);
        } else if first + n <= i {
            assert(s[i] == Slot::spec_empty());
        }
    }
}

/// The BootInfo slot regions follow one another without gaps: the image
/// frames start right after the fixed slots, the untyped region follows
/// them, and the empty region runs from there to the end of the root cnode,
/// every slot in it being empty.
pub proof fn lemma_boot_regions_partition(st: BootState, image: RootserverImage)
    requires
        boot_contract(st, image),
        FIRST_USER_IMAGE_FRAME_SLOT + image_frame_count(image) <= ROOT_CNODE_SLOTS,
    ensures
        st.bootinfo.user_image_frames.start@ == FIRST_USER_IMAGE_FRAME_SLOT,
        st.bootinfo.user_image_frames.end@ == st.bootinfo.untyped.start@,
        st.bootinfo.untyped.end@ == st.bootinfo.empty.start@,
        st.bootinfo.empty.end@ == ROOT_CNODE_SLOTS,
        st.bootinfo.untyped.start@ <= st.bootinfo.untyped.end@ <= ROOT_CNODE_SLOTS,
        st.bootinfo.untyped.end@ - st.bootinfo.untyped.start@ <= MAX_UNTYPED_OBJECTS,
        forall|j: int| st.bootinfo.empty.start@ <= j < ROOT_CNODE_SLOTS ==> #[trigger] st.cnode@[j] == Slot::spec_empty(),
{
    let first = FIRST_USER_IMAGE_FRAME_SLOT + image_frame_count(image);
    mm::lemma_stream_blocks(st.untyped_start as nat, st.free_memory_end as nat, max_untyped(first as nat));
}

/// Where bootstrap put things: past the kernel and rootserver images come,
/// in order and without overlap, the BootInfo, the root cnode's slots, the
/// root TCB, the IPC buffer page and the rootserver stack page; every
/// exported untyped region lies after all of them and inside the free
/// memory window, and no two untyped regions overlap.
pub proof fn lemma_untyped_excludes_boot_objects(
    st: BootState,
    kernel_end: nat,
    image: RootserverImage,
    l: BootObjectLayout,
)
    requires
        boot_fits(kernel_end, image, l),
        boot_layout_ok(st, kernel_end, image, l),
        boot_contract(st, image),
    ensures
        kernel_end <= st.free_memory_start,
        image.end <= st.free_memory_start,
        st.free_memory_start <= st.bootinfo_paddr,
        st.bootinfo_paddr + l.bootinfo_size <= st.root_cnode_paddr,
        st.root_cnode_paddr + l.slot_size * ROOT_CNODE_SLOTS <= st.root_tcb_paddr,
        st.root_tcb_paddr + l.tcb_size <= st.ipc_buffer_paddr,
        st.ipc_buffer_paddr + PAGE_SIZE <= st.rootserver_stack_paddr,
        st.rootserver_stack_paddr + PAGE_SIZE <= st.untyped_start,
        forall|i: int| 0 <= i < boot_blocks(st, image).len() ==> st.untyped_start <= (#[trigger] boot_blocks(st, image)[i]).0
            && boot_blocks(st, image)[i].0 + pow2(boot_blocks(st, image)[i].1 as nat) <= st.free_memory_end,
        forall|i: int, j: int| 0 <= i < j < boot_blocks(st, image).len() ==>
            (#[trigger] boot_blocks(st, image)[i]).0 + pow2(boot_blocks(st, image)[i].1 as nat)
                <= (#[trigger] boot_blocks(st, image)[j]).0,
{
    let (free_start, free_end) = mm::free_memory_window(kernel_end, image.end as nat);
    let c0 = round_up(free_start, PAGE_SIZE as nat);
    let plan = boot_plan(kernel_end, image, l)->Some_0;
    lemma_pow2_word();
    crate::arith::lemma_page_is_power_of_two();
    mm::lemma_power_of_two_positive(l.bootinfo_align as nat);
    mm::lemma_power_of_two_positive(l.slot_align as nat);
    mm::lemma_power_of_two_positive(l.tcb_align as nat);
    let top = if kernel_end < image.end { image.end as nat } else { kernel_end };
    crate::arith::lemma_round_up(top as int, PAGE_SIZE as int);
    crate::arith::lemma_round_up(free_start as int, PAGE_SIZE as int);
    crate::arith::lemma_round_up(c0 as int, l.bootinfo_align as int);
    let c1: nat = plan.0 + l.bootinfo_size as nat;
    crate::arith::lemma_round_up(c1 as int, l.slot_align as int);
    let c2: nat = plan.1 + l.slot_size as nat * ROOT_CNODE_SLOTS as nat;
    crate::arith::lemma_round_up(c2 as int, l.tcb_align as int);
    let c3: nat = plan.2 + l.tcb_size as nat;
    crate::arith::lemma_round_up(c3 as int, PAGE_SIZE as int);
    let c4: nat = plan.3 + PAGE_SIZE as nat;
    crate::arith::lemma_round_up(c4 as int, PAGE_SIZE as int);
    let c5: nat = plan.4 + PAGE_SIZE as nat;
    crate::arith::lemma_round_up(c5 as int, PAGE_SIZE as int);
    let first = FIRST_USER_IMAGE_FRAME_SLOT + image_frame_count(image);
    let limit = max_untyped(first as nat);
    mm::lemma_stream_blocks(st.untyped_start as nat, st.free_memory_end as nat, limit);
    assert forall|i: int, j: int| 0 <= i < j < boot_blocks(st, image).len() implies
        (#[trigger] boot_blocks(st, image)[i]).0 + pow2(boot_blocks(st, image)[i].1 as nat)
            <= (#[trigger] boot_blocks(st, image)[j]).0 by {
        mm::lemma_stream_blocks_disjoint(st.untyped_start as nat, st.free_memory_end as nat, limit, i, j);
    }
    assert forall|i: int| 0 <= i < boot_blocks(st, image).len() implies st.untyped_start <= (#[trigger] boot_blocks(st, image)[i]).0
        && boot_blocks(st, image)[i].0 + pow2(boot_blocks(st, image)[i].1 as nat) <= st.free_memory_end by {
        assert(mm::block_ok(boot_blocks(st, image)[i], st.untyped_start as nat, st.free_memory_end as nat));
    }
}

/// A page-aligned address that is a word leaves room for a page's worth of
/// rounding.
pub proof fn lemma_page_end_room(x: nat)
    requires
        x % PAGE_SIZE as nat == 0,
        x <= usize::MAX,
    ensures
        x + PAGE_SIZE - 1 <= usize::MAX,
{
    lemma_pow2_word();
    vstd::arithmetic::power2::lemma_pow2_adds(12, (usize::BITS - 12) as nat);
    let kk = pow2((usize::BITS - 12) as nat) as int;
    let q = x as int / 4096;
    assert(x as int == 4096 * q);
    assert(x + 4095 <= usize::MAX) by (nonlinear_arith)
        requires
            x as int == 4096 * q,
            x <= usize::MAX,
            usize::MAX + 1 == 4096 * kk,
    ;
}

} // verus!
