//! Laws that join the kernel's side and the rootserver's side of the boot
//! handoff.

use vstd::prelude::*;
use vstd::arithmetic::power2::{pow2, lemma2_to64, lemma_pow2_pos};
use vstd::arithmetic::div_mod::{lemma_basic_div, lemma_small_mod};
use crate::arith::extract_bits;
use crate::common::invocation::OK;
use crate::config::{PAGE_SIZE, ROOT_CNODE_SLOTS, FIRST_USER_IMAGE_FRAME_SLOT};
use crate::kernel::boot::{
    BootState,
    boot_contract,
    boot_blocks,
    image_frame_count,
    root_cnode_cap,
    fresh_slot,
    max_untyped,
    untyped_cap,
};
use crate::kernel::boot::mm;
use crate::kernel::boot::rootserver::RootserverImage;
use crate::kernel::cap::{Capability, FrameCap, Slot, UntypedCap};
use crate::kernel::cap::utils::{LookupError, resolve};
use crate::kernel::cap::invocation::cap_invoke;
use crate::rootserver::first_frame_retype;

verus! {

/// Through the root cnode, a cptr below the cnode's size names the slot
/// with that index, as long as that slot does not hold a cnode.
pub proof fn lemma_root_resolve(mem: Seq<Slot>, x: nat)
    requires
        x < ROOT_CNODE_SLOTS,
        !(mem[x as int].cap is CNode),
    ensures
        resolve(mem, root_cnode_cap(), x, usize::BITS as nat) == Ok::<usize, LookupError>(x as usize),
{
    lemma2_to64();
    lemma_pow2_pos((usize::BITS - 8) as nat);
    lemma_basic_div(x as int, pow2(8) as int);
    assert(x / pow2(8) == 0);
    lemma_small_mod(0, pow2((usize::BITS - 8) as nat));
    assert(extract_bits(x, 8, (usize::BITS - 8) as nat) == 0);
    lemma_small_mod(x, 256);
    assert(extract_bits(x, 0, 8) == x);
}

/// The first retype the rootserver requests after boot succeeds: when
/// bootstrap exported at least one untyped region and left an empty slot,
/// invoking `UNTYPED_RETYPE` on the first untyped capability for one page
/// frame placed in the first empty slot returns `OK`, writes a frame
/// capability for the first page of that untyped region into the slot,
/// advances the untyped's used part by one page, and changes no other slot.
pub proof fn lemma_first_retype_succeeds(st: BootState, image: RootserverImage)
    requires
        boot_contract(st, image),
        FIRST_USER_IMAGE_FRAME_SLOT + image_frame_count(image) <= ROOT_CNODE_SLOTS,
        boot_blocks(st, image).len() > 0,
        st.bootinfo.empty.start@ < ROOT_CNODE_SLOTS,
    ensures
        ({
            let req = first_frame_retype(st.bootinfo);
            let (code, m, f) = cap_invoke(
                st.cnode@,
                st.root_tcb.cspace_root,
                req.service,
                req.label,
                req.arg0,
                req.arg1,
                req.arg2,
            );
            let frame = FrameCap { paddr: st.bootinfo.untyped_paddr_list@[0], size_bits: 12 };
            let u = st.cnode@[req.service as int].cap->Untyped_0;
            &&& code == OK as usize
            &&& f == Some(frame)
            &&& m[req.arg1 as int] == fresh_slot(Capability::Frame(frame))
            &&& m[req.service as int].cap == Capability::Untyped(UntypedCap {
                paddr: u.paddr,
                size_bits: u.size_bits,
                is_device: u.is_device,
                free_offset: PAGE_SIZE,
            })
            &&& forall|k: int| 0 <= k < ROOT_CNODE_SLOTS && k != req.arg1 && k != req.service ==> m[k] == st.cnode@[k]
        }),
{
    let s = st.cnode@;
    let first = FIRST_USER_IMAGE_FRAME_SLOT + image_frame_count(image);
    let blocks = boot_blocks(st, image);
    let service = st.bootinfo.untyped.start@;
    let dest = st.bootinfo.empty.start@;
    lemma2_to64();
    mm::lemma_stream_blocks(st.untyped_start as nat, st.free_memory_end as nat, max_untyped(first as nat));
    assert(s[first + 0] == fresh_slot(untyped_cap(blocks[0])));
    assert(mm::block_ok(blocks[0], st.untyped_start as nat, st.free_memory_end as nat));
    assert(s[dest as int] == Slot::spec_empty());
    lemma_root_resolve(s, service as nat);
    lemma_root_resolve(s, dest as nat);
    let u = s[service as int].cap->Untyped_0;
    assert(u.paddr as nat % pow2(12) == 0);
    crate::arith::lemma_round_up(u.paddr as int, 4096);
    crate::arith::lemma_pow2_mono(12, u.size_bits as nat);
}

} // verus!
