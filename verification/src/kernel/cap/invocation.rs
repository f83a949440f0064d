//! Capability invocation: the `CAP_INVOKE` syscall and the untyped retype
//! operation, which carves a frame out of an untyped region.

use vstd::prelude::*;
use vstd::arithmetic::power2::{pow2, lemma_pow2_adds, lemma_pow2_pos};
use vstd::bits::{lemma_usize_shl_is_mul, lemma_usize_pow2_no_overflow};
use crate::arith::{round_up, lemma_pow2_word};
use crate::common::CPtr;
use crate::common::invocation::{
    OK,
    ERR_UNSUPPORTED_CAP,
    ERR_LOOKUP,
    ERR_UNSUPPORTED_LABEL,
    ERR_UNSUPPORTED_OBJECT,
    ERR_DESTINATION,
    ERR_UNTYPED_SPACE,
    UNTYPED_RETYPE,
    OBJECT_FRAME,
};
use crate::config::{MIN_UNTYPED_SIZE_BITS, PAGE_SIZE};
use crate::context::a_index;
use super::{Capability, CNodeCap, FrameCap, MDBNode, Slot, SlotMemory, UntypedCap, cap_wf, slots_wf};
use super::threads::Tcb;
use super::utils::{align_up, resolve, LookupError, lemma_resolve_in_bounds, lemma_resolve_same_tree, lookup_empty_slot, lookup_source_slot, empty_lookup, source_lookup};

verus! {

/// Why an untyped retype was refused.
#[derive(Debug, Copy, Clone, PartialEq, Eq, Structural)]
pub enum InvokeError {
    /// The requested object type is not supported.
    UnsupportedObject,
    /// The requested size is invalid or the untyped region lacks space.
    UntypedSpace,
    /// The destination slot did not resolve or is not empty.
    Destination,
}

impl InvokeError {
    /// The code reported to the caller in `a0`.
    pub open spec fn code(self) -> usize {
        match self {
            InvokeError::UnsupportedObject => ERR_UNSUPPORTED_OBJECT,
            InvokeError::UntypedSpace => ERR_UNTYPED_SPACE,
            InvokeError::Destination => ERR_DESTINATION,
        }
    }
}

impl From<InvokeError> for usize {
    fn from(value: InvokeError) -> (r: usize) {
        match value {
            InvokeError::UnsupportedObject => ERR_UNSUPPORTED_OBJECT,
            InvokeError::UntypedSpace => ERR_UNTYPED_SPACE,
            InvokeError::Destination => ERR_DESTINATION,
        }
    }
}

impl vstd::std_specs::convert::FromSpecImpl<InvokeError> for usize {
    open spec fn obeys_from_spec() -> bool {
        true
    }

    open spec fn from_spec(v: InvokeError) -> usize {
        v.code()
    }
}

/// First byte past the untyped region.
pub open spec fn untyped_end(u: UntypedCap) -> nat {
    u.paddr as nat + pow2(u.size_bits as nat)
}

/// Where the next object of `2^size_bits` bytes starts: the first free
/// byte, rounded up to the object's alignment.
pub open spec fn frame_base(u: UntypedCap, size_bits: nat) -> nat {
    round_up((u.paddr + u.free_offset) as nat, pow2(size_bits))
}

/// The slot that a retype fills, or why the retype is refused.
pub open spec fn retype_check(
    mem: Seq<Slot>,
    root: CNodeCap,
    u: UntypedCap,
    object_type: usize,
    destination: nat,
    size_bits: usize,
) -> Result<usize, InvokeError> {
    if object_type != OBJECT_FRAME {
        Err(InvokeError::UnsupportedObject)
    } else if size_bits != MIN_UNTYPED_SIZE_BITS {
        Err(InvokeError::UntypedSpace)
    } else {
        match empty_lookup(mem, root, destination, usize::BITS as nat) {
            Err(_) => Err(InvokeError::Destination),
            Ok(a) => if frame_base(u, size_bits as nat) + pow2(size_bits as nat) > untyped_end(u) {
                Err(InvokeError::UntypedSpace)
            } else {
                Ok(a)
            },
        }
    }
}

/// Only a page frame can be retyped: a retype succeeds only for
/// `OBJECT_FRAME` objects of `MIN_UNTYPED_SIZE_BITS` bits into a
/// destination that resolves to an empty slot, and any other object type is
/// refused as unsupported before anything else is looked at.
pub proof fn lemma_retype_only_frames(
    mem: Seq<Slot>,
    root: CNodeCap,
    u: UntypedCap,
    object_type: usize,
    destination: nat,
    size_bits: usize,
)
    ensures
        object_type != OBJECT_FRAME ==> retype_check(mem, root, u, object_type, destination, size_bits)
            == Err::<usize, InvokeError>(InvokeError::UnsupportedObject),
        object_type == OBJECT_FRAME && size_bits != MIN_UNTYPED_SIZE_BITS ==> retype_check(
            mem,
            root,
            u,
            object_type,
            destination,
            size_bits,
        ) == Err::<usize, InvokeError>(InvokeError::UntypedSpace),
        retype_check(mem, root, u, object_type, destination, size_bits) matches Ok(a) ==> {
            &&& object_type == OBJECT_FRAME
            &&& size_bits == MIN_UNTYPED_SIZE_BITS
            &&& resolve(mem, root, destination, usize::BITS as nat) == Ok::<usize, LookupError>(a)
            &&& mem[a as int].cap is Null
        },
{
}

/// A frame retype into an empty destination places the page at the first
/// page boundary `m` at or past the untyped's used part: when that page
/// lies inside the region the retype succeeds with the frame at `m`, the
/// destination slot is the one the destination resolves to, and the used
/// part then ends at `m + PAGE_SIZE`; when it does not, the retype fails
/// for lack of space.
pub proof fn lemma_retype_first_fit(
    mem: Seq<Slot>,
    root: CNodeCap,
    u: UntypedCap,
    destination: nat,
    m: nat,
)
    requires
        u.wf(),
        empty_lookup(mem, root, destination, usize::BITS as nat) is Ok,
        m % PAGE_SIZE as nat == 0,
        u.paddr + u.free_offset <= m < u.paddr + u.free_offset + PAGE_SIZE,
    ensures
        m + PAGE_SIZE <= u.paddr + pow2(u.size_bits as nat) ==> {
            let r = retype_check(mem, root, u, OBJECT_FRAME, destination, MIN_UNTYPED_SIZE_BITS as usize);
            &&& r == Ok::<usize, InvokeError>(empty_lookup(mem, root, destination, usize::BITS as nat)->Ok_0)
            &&& retyped_frame(u, MIN_UNTYPED_SIZE_BITS as usize) == FrameCap { paddr: m as usize, size_bits: 12 }
            &&& u.paddr + retyped_untyped(u, MIN_UNTYPED_SIZE_BITS as usize).free_offset == m + PAGE_SIZE
        },
        m + PAGE_SIZE > u.paddr + pow2(u.size_bits as nat) ==> retype_check(
            mem,
            root,
            u,
            OBJECT_FRAME,
            destination,
            MIN_UNTYPED_SIZE_BITS as usize,
        ) == Err::<usize, InvokeError>(InvokeError::UntypedSpace),
{
    lemma_pow2_word();
    let x: int = u.paddr + u.free_offset;
    crate::arith::lemma_round_up(x, 4096);
    let r: int = round_up(x as nat, 4096nat) as int;
    let mi: int = m as int;
    assert(r == mi) by (nonlinear_arith)
        requires
            x <= r < x + 4096,
            x <= mi < x + 4096,
            r % 4096 == 0,
            mi % 4096 == 0,
    {
        assert((r - mi) % 4096 == 0) by (nonlinear_arith)
            requires r % 4096 == 0, mi % 4096 == 0;
    }
    assert(frame_base(u, 12) == m);
}

/// The frame that a successful retype creates.
pub open spec fn retyped_frame(u: UntypedCap, size_bits: usize) -> FrameCap {
    FrameCap { paddr: frame_base(u, size_bits as nat) as usize, size_bits: size_bits as u8 }
}

/// The untyped region after a successful retype: its used part now ends
/// at the end of the new frame.
pub open spec fn retyped_untyped(u: UntypedCap, size_bits: usize) -> UntypedCap {
    UntypedCap {
        paddr: u.paddr,
        size_bits: u.size_bits,
        is_device: u.is_device,
        free_offset: (frame_base(u, size_bits as nat) + pow2(size_bits as nat) - u.paddr) as usize,
    }
}

/// What a successful retype guarantees: the destination slot was empty;
/// the new frame is aligned to its size, lies inside the untyped region at
/// or past its used part; the untyped's used part grows to the frame's end
/// and the untyped stays well formed. Hence every later frame carved from
/// the updated untyped starts at or past the end of this one, so frames
/// carved one after another never overlap.
pub proof fn lemma_retype_advances(
    mem: Seq<Slot>,
    root: CNodeCap,
    u: UntypedCap,
    object_type: usize,
    destination: nat,
    size_bits: usize,
    next_size_bits: nat,
)
    requires
        u.wf(),
        retype_check(mem, root, u, object_type, destination, size_bits) is Ok,
    ensures
        mem[retype_check(mem, root, u, object_type, destination, size_bits)->Ok_0 as int].cap is Null,
        retyped_frame(u, size_bits).paddr as nat % pow2(size_bits as nat) == 0,
        u.paddr + u.free_offset <= retyped_frame(u, size_bits).paddr,
        retyped_frame(u, size_bits).paddr + pow2(size_bits as nat) <= untyped_end(u),
        retyped_untyped(u, size_bits).wf(),
        u.free_offset < retyped_untyped(u, size_bits).free_offset,
        retyped_frame(u, size_bits).paddr + pow2(size_bits as nat) <= frame_base(retyped_untyped(u, size_bits), next_size_bits),
{
    lemma_pow2_pos(size_bits as nat);
    lemma_pow2_pos(next_size_bits);
    crate::arith::lemma_round_up((u.paddr + u.free_offset) as int, pow2(size_bits as nat) as int);
    let u2 = retyped_untyped(u, size_bits);
    crate::arith::lemma_round_up((u2.paddr + u2.free_offset) as int, pow2(next_size_bits) as int);
    lemma_pow2_word();
}

/// One untyped retype as a function of the slot memory and the untyped: the
/// slot memory afterwards, the untyped afterwards and the result.
pub open spec fn retype_step(
    mem: Seq<Slot>,
    root: CNodeCap,
    u: UntypedCap,
    object_type: usize,
    destination: nat,
    size_bits: usize,
) -> (Seq<Slot>, UntypedCap, Result<FrameCap, InvokeError>) {
    match retype_check(mem, root, u, object_type, destination, size_bits) {
        Err(e) => (mem, u, Err(e)),
        Ok(a) => (
            mem.update(
                a as int,
                Slot { cap: Capability::Frame(retyped_frame(u, size_bits)), mdb: MDBNode::spec_empty() },
            ),
            retyped_untyped(u, size_bits),
            Ok(retyped_frame(u, size_bits)),
        ),
    }
}

/// A sequence of untyped retypes on one untyped, each request being
/// `(object_type, destination, size_bits)`: the slot memory and the
/// untyped after the last one, and the result of each.
pub open spec fn retype_run(
    mem: Seq<Slot>,
    root: CNodeCap,
    u: UntypedCap,
    reqs: Seq<(usize, usize, usize)>,
) -> (Seq<Slot>, UntypedCap, Seq<Result<FrameCap, InvokeError>>)
    decreases reqs.len(),
{
    if reqs.len() == 0 {
        (mem, u, Seq::empty())
    } else {
        let (m, v, rs) = retype_run(mem, root, u, reqs.drop_last());
        let q = reqs.last();
        let (m2, v2, r) = retype_step(m, root, v, q.0, q.1 as nat, q.2);
        (m2, v2, rs.push(r))
    }
}

/// Any sequence of untyped retypes on one untyped, with any destinations:
/// the untyped stays well formed, keeps its base, size and device flag, its
/// used part never shrinks and never outgrows the region; every frame handed
/// out is a page, page aligned, lies inside the region past the part used
/// before the sequence and before the part used after it; frames handed out
/// later lie wholly after frames handed out earlier, so no two overlap.
pub proof fn lemma_retype_run(mem: Seq<Slot>, root: CNodeCap, u: UntypedCap, reqs: Seq<(usize, usize, usize)>)
    requires
        u.wf(),
    ensures
        ({
            let (m, v, rs) = retype_run(mem, root, u, reqs);
            &&& rs.len() == reqs.len()
            &&& v.wf()
            &&& v.paddr == u.paddr && v.size_bits == u.size_bits && v.is_device == u.is_device
            &&& u.free_offset <= v.free_offset
            &&& u.free_offset <= pow2(u.size_bits as nat) ==> v.free_offset <= pow2(u.size_bits as nat)
            &&& forall|i: int| 0 <= i < rs.len() && #[trigger] rs[i] is Ok ==> {
                let f = rs[i]->Ok_0;
                &&& f.size_bits == MIN_UNTYPED_SIZE_BITS
                &&& f.paddr as nat % PAGE_SIZE as nat == 0
                &&& u.paddr + u.free_offset <= f.paddr
                &&& f.paddr + PAGE_SIZE <= v.paddr + v.free_offset
                &&& f.paddr + PAGE_SIZE <= untyped_end(u)
            }
            &&& forall|i: int, j: int| 0 <= i < j < rs.len() && #[trigger] rs[i] is Ok && #[trigger] rs[j] is Ok
                ==> rs[i]->Ok_0.paddr + PAGE_SIZE <= rs[j]->Ok_0.paddr
        }),
    decreases reqs.len(),
{
    if reqs.len() > 0 {
        lemma_retype_run(mem, root, u, reqs.drop_last());
        let (m, v, rs) = retype_run(mem, root, u, reqs.drop_last());
        let q = reqs.last();
        let (m2, v2, r) = retype_step(m, root, v, q.0, q.1 as nat, q.2);
        let rs2 = rs.push(r);
        assert(retype_run(mem, root, u, reqs) == (m2, v2, rs2));
        if retype_check(m, root, v, q.0, q.1 as nat, q.2) is Ok {
            lemma_retype_advances(m, root, v, q.0, q.1 as nat, q.2, 0);
            lemma_pow2_word();
            assert(q.2 == MIN_UNTYPED_SIZE_BITS);
            assert(pow2(12) == 4096) by { vstd::arithmetic::power2::lemma2_to64(); }
        }
        assert forall|i: int| 0 <= i < rs2.len() && #[trigger] rs2[i] is Ok implies {
            let f = rs2[i]->Ok_0;
            &&& f.size_bits == MIN_UNTYPED_SIZE_BITS
            &&& f.paddr as nat % PAGE_SIZE as nat == 0
            &&& u.paddr + u.free_offset <= f.paddr
            &&& f.paddr + PAGE_SIZE <= v2.paddr + v2.free_offset
            &&& f.paddr + PAGE_SIZE <= untyped_end(u)
        } by {
            if i < rs.len() {
                assert(rs2[i] == rs[i]);
            }
        }
        assert forall|i: int, j: int| 0 <= i < j < rs2.len() && #[trigger] rs2[i] is Ok && #[trigger] rs2[j] is Ok
            implies rs2[i]->Ok_0.paddr + PAGE_SIZE <= rs2[j]->Ok_0.paddr by {
            assert(rs2[i] == rs[i]);
            if j < rs.len() {
                assert(rs2[j] == rs[j]);
            }
        }
    }
}

/// Carves the next frame out of `untyped` and writes a capability to it into
/// the empty slot that `destination` names.
///
/// The frame starts at the first free byte rounded up to the frame size, and
/// the untyped's used part is advanced past it. When the request is refused
/// nothing changes. The returned frame still has to be zero-filled.
pub fn untyped_retype(
    mem: &mut SlotMemory,
    root_cnode: &CNodeCap,
    untyped: &mut UntypedCap,
    object_type: usize,
    destination: CPtr,
    size_bits: usize,
) -> (r: Result<FrameCap, InvokeError>)
    requires
        old(mem).wf(),
        root_cnode.fits_in(old(mem)@.len()),
        old(untyped).wf(),
    ensures
        final(mem).wf(),
        final(mem)@.len() == old(mem)@.len(),
        final(untyped).wf(),
        r is Ok ==> object_type == OBJECT_FRAME && size_bits == MIN_UNTYPED_SIZE_BITS,
        object_type != OBJECT_FRAME ==> r == Err::<FrameCap, InvokeError>(InvokeError::UnsupportedObject)
            && final(mem)@ == old(mem)@ && *final(untyped) == *old(untyped),
        (final(mem)@, *final(untyped), r) == retype_step(
            old(mem)@,
            *root_cnode,
            *old(untyped),
            object_type,
            destination@ as nat,
            size_bits,
        ),
        match retype_check(old(mem)@, *root_cnode, *old(untyped), object_type, destination@ as nat, size_bits) {
            Err(e) => r == Err::<FrameCap, InvokeError>(e) && final(mem)@ == old(mem)@
                && *final(untyped) == *old(untyped),
            Ok(a) => r == Ok::<FrameCap, InvokeError>(retyped_frame(*old(untyped), size_bits))
                && final(mem)@ == old(mem)@.update(
                    a as int,
                    Slot { cap: Capability::Frame(retyped_frame(*old(untyped), size_bits)), mdb: MDBNode::spec_empty() },
                ) && *final(untyped) == retyped_untyped(*old(untyped), size_bits),
        },
{
    if object_type != OBJECT_FRAME {
        return Err(InvokeError::UnsupportedObject);
    }
    if size_bits != MIN_UNTYPED_SIZE_BITS as usize {
        return Err(InvokeError::UntypedSpace);
    }
    let destination_slot = match lookup_empty_slot(mem, root_cnode, destination, usize::BITS) {
        Ok(s) => s,
        Err(_) => {
            return Err(InvokeError::Destination);
        },
    };
    proof {
        lemma_pow2_word();
        lemma_usize_pow2_no_overflow(untyped.size_bits as nat);
        lemma_usize_shl_is_mul(1, untyped.size_bits as usize);
        lemma_usize_pow2_no_overflow(12);
        lemma_usize_shl_is_mul(1, 12);
    }
    let base = untyped.paddr;
    let end = base + (1usize << untyped.size_bits);
    let align: usize = 1usize << size_bits;
    assert(align == 4096);
    let alloc_start = align_up(base + untyped.free_offset, align);
    let alloc_end = match alloc_start.checked_add(align) {
        Some(e) => e,
        None => {
            return Err(InvokeError::UntypedSpace);
        },
    };
    if alloc_end > end {
        return Err(InvokeError::UntypedSpace);
    }
    untyped.free_offset = alloc_end - base;
    let frame = FrameCap { paddr: alloc_start, size_bits: size_bits as u8 };
    destination_slot.write(mem, Slot { cap: Capability::Frame(frame), mdb: MDBNode::empty() });
    Ok(frame)
}

/// Outcome of invoking an untyped held at `service_addr`: the code for
/// `a0`, the slot memory afterwards, and the frame that must be zero-filled.
pub open spec fn untyped_invoke(
    mem: Seq<Slot>,
    root: CNodeCap,
    service_addr: usize,
    u: UntypedCap,
    label: usize,
    object_type: usize,
    destination: usize,
    size_bits: usize,
) -> (usize, Seq<Slot>, Option<FrameCap>) {
    if label != UNTYPED_RETYPE {
        (ERR_UNSUPPORTED_LABEL, mem, None)
    } else {
        match retype_check(mem, root, u, object_type, destination as nat, size_bits) {
            Err(e) => (e.code(), mem, None),
            Ok(a) => (
                OK as usize,
                mem.update(
                    a as int,
                    Slot { cap: Capability::Frame(retyped_frame(u, size_bits)), mdb: MDBNode::spec_empty() },
                ).update(
                    service_addr as int,
                    Slot { cap: Capability::Untyped(retyped_untyped(u, size_bits)), mdb: mem[service_addr as int].mdb },
                ),
                Some(retyped_frame(u, size_bits)),
            ),
        }
    }
}

/// Outcome of a capability invocation by a thread whose cspace root is
/// `root_cap`: the code for `a0`, the slot memory afterwards, and the frame
/// that must be zero-filled.
pub open spec fn cap_invoke(
    mem: Seq<Slot>,
    root_cap: Capability,
    service: usize,
    label: usize,
    arg0: usize,
    arg1: usize,
    arg2: usize,
) -> (usize, Seq<Slot>, Option<FrameCap>) {
    match root_cap {
        Capability::CNode(root) => match source_lookup(mem, root, service as nat, usize::BITS as nat) {
            Err(_) => (ERR_LOOKUP, mem, None),
            Ok(s) => match mem[s as int].cap {
                Capability::Untyped(u) => untyped_invoke(mem, root, s, u, label, arg0, arg1, arg2),
                _ => (ERR_UNSUPPORTED_CAP, mem, None),
            },
        },
        _ => (ERR_UNSUPPORTED_CAP, mem, None),
    }
}

/// A refused invocation changes no slot and asks for no frame; an accepted
/// one reports `OK`, asks for its new frame to be zero-filled, and changes
/// at most two slots: the invoked untyped and the destination.
pub proof fn lemma_invoke_all_or_nothing(
    mem: Seq<Slot>,
    root_cap: Capability,
    service: usize,
    label: usize,
    arg0: usize,
    arg1: usize,
    arg2: usize,
) -> (touched: (int, int))
    requires
        crate::kernel::cap::slots_wf(mem),
        cap_wf(root_cap, mem.len()),
    ensures
        ({
            let (code, m, f) = cap_invoke(mem, root_cap, service, label, arg0, arg1, arg2);
            &&& code != OK as usize ==> m == mem && f is None
            &&& code == OK as usize ==> f is Some && m.len() == mem.len()
                && forall|k: int| 0 <= k < mem.len() && k != touched.0 && k != touched.1 ==> #[trigger] m[k] == mem[k]
        }),
{
    let (code, m, f) = cap_invoke(mem, root_cap, service, label, arg0, arg1, arg2);
    if code == OK as usize {
        let root = root_cap->CNode_0;
        let s = source_lookup(mem, root, service as nat, usize::BITS as nat)->Ok_0;
        let u = mem[s as int].cap->Untyped_0;
        let d = retype_check(mem, root, u, arg0, arg1 as nat, arg2)->Ok_0;
        lemma_resolve_in_bounds(mem, root, service as nat, usize::BITS as nat);
        lemma_resolve_in_bounds(mem, root, arg1 as nat, usize::BITS as nat);
        assert forall|k: int| 0 <= k < mem.len() && k != s && k != d implies #[trigger] m[k] == mem[k] by {}
        (s as int, d as int)
    } else {
        (0, 0)
    }
}

/// Repeating a successful retype: after an invocation of an untyped that
/// returned `OK` and the frame `f`, the same invocation on the updated slot
/// memory, naming another destination that is empty there, returns `OK` and
/// the frame on the page right after `f` when that page still fits in the
/// untyped region, and otherwise `ERR_UNTYPED_SPACE`, changing nothing.
/// The invoked untyped was updated in its own slot, not in a copy.
/// `handle_cap_invoke` carries out exactly `cap_invoke` on the registers
/// `a0..a4`, so this is what two such syscalls in a row do.
pub proof fn lemma_repeat_retype(
    mem: Seq<Slot>,
    root_cap: Capability,
    service: usize,
    label: usize,
    arg0: usize,
    arg1: usize,
    arg2: usize,
    next_destination: usize,
)
    requires
        slots_wf(mem),
        cap_wf(root_cap, mem.len()),
        cap_invoke(mem, root_cap, service, label, arg0, arg1, arg2).0 == OK,
        empty_lookup(
            cap_invoke(mem, root_cap, service, label, arg0, arg1, arg2).1,
            root_cap->CNode_0,
            next_destination as nat,
            usize::BITS as nat,
        ) is Ok,
    ensures
        ({
            let (_, m1, f1) = cap_invoke(mem, root_cap, service, label, arg0, arg1, arg2);
            let (code, m2, f2) = cap_invoke(m1, root_cap, service, label, arg0, next_destination, arg2);
            let f = f1->Some_0;
            let s = source_lookup(mem, root_cap->CNode_0, service as nat, usize::BITS as nat)->Ok_0;
            let u = mem[s as int].cap->Untyped_0;
            &&& f1 is Some
            &&& f.size_bits == MIN_UNTYPED_SIZE_BITS
            &&& m1[s as int].cap == Capability::Untyped(UntypedCap {
                free_offset: (f.paddr + PAGE_SIZE - u.paddr) as usize,
                ..u
            })
            &&& f.paddr + 2 * PAGE_SIZE <= untyped_end(u) ==> code == OK as usize && f2 == Some(
                FrameCap { paddr: (f.paddr + PAGE_SIZE) as usize, size_bits: MIN_UNTYPED_SIZE_BITS },
            )
            &&& f.paddr + 2 * PAGE_SIZE > untyped_end(u) ==> code == ERR_UNTYPED_SPACE && m2 == m1 && f2 is None
        }),
{
    let root = root_cap->CNode_0;
    let (_, m1, f1) = cap_invoke(mem, root_cap, service, label, arg0, arg1, arg2);
    let s = source_lookup(mem, root, service as nat, usize::BITS as nat)->Ok_0;
    let u = mem[s as int].cap->Untyped_0;
    let d = retype_check(mem, root, u, arg0, arg1 as nat, arg2)->Ok_0;
    lemma_resolve_in_bounds(mem, root, service as nat, usize::BITS as nat);
    lemma_resolve_in_bounds(mem, root, arg1 as nat, usize::BITS as nat);
    assert(cap_wf(mem[s as int].cap, mem.len()));
    lemma_retype_advances(mem, root, u, arg0, arg1 as nat, arg2, MIN_UNTYPED_SIZE_BITS as nat);
    assert forall|k: int| 0 <= k < mem.len() && (#[trigger] mem[k].cap is CNode || m1[k].cap is CNode)
        implies mem[k].cap == m1[k].cap by {
        if k == s || k == d {
            assert(!(mem[k].cap is CNode));
        }
    }
    lemma_resolve_same_tree(mem, m1, root, service as nat, usize::BITS as nat);
    lemma_resolve_same_tree(mem, m1, root, next_destination as nat, usize::BITS as nat);
    let u1 = retyped_untyped(u, arg2);
    assert(m1[s as int].cap == Capability::Untyped(u1));
    let f = f1->Some_0;
    lemma_pow2_word();
    assert(pow2(12) == 4096) by { vstd::arithmetic::power2::lemma2_to64(); }
    assert(arg2 == MIN_UNTYPED_SIZE_BITS);
    assert(f == retyped_frame(u, arg2));
    assert(f.paddr as int % 4096 == 0);
    assert(u1.paddr + u1.free_offset == f.paddr + PAGE_SIZE);
    crate::arith::lemma_round_up((f.paddr + PAGE_SIZE) as int, 4096);
    assert((f.paddr + PAGE_SIZE) as int % 4096 == 0) by (nonlinear_arith)
        requires
            f.paddr as int % 4096 == 0,
            PAGE_SIZE == 4096,
    ;
    assert(frame_base(u1, 12) == f.paddr + PAGE_SIZE) by {
        let x = (f.paddr + PAGE_SIZE) as int;
        let r = round_up(x as nat, 4096nat) as int;
        assert(r == x) by (nonlinear_arith)
            requires
                x <= r < x + 4096,
                r % 4096 == 0,
                x % 4096 == 0,
        {
            assert((r - x) % 4096 == 0) by (nonlinear_arith)
                requires r % 4096 == 0, x % 4096 == 0;
        }
    }
}

/// Outcome of the capability invocation that `tcb`'s registers request.
pub open spec fn tcb_cap_invoke(mem: Seq<Slot>, tcb: Tcb) -> (usize, Seq<Slot>, Option<FrameCap>) {
    cap_invoke(mem, tcb.cspace_root, tcb.ctx.arg(0), tcb.ctx.arg(1), tcb.ctx.arg(2), tcb.ctx.arg(3), tcb.ctx.arg(4))
}

/// Handles `CAP_INVOKE` for `tcb`: `a0` names the service capability, `a1`
/// the label, `a2..a4` the arguments; the result code goes to `a0`.
/// Returns the frame that a retype created, which must be zero-filled.
pub fn handle_cap_invoke(tcb: &mut Tcb, mem: &mut SlotMemory) -> (frame: Option<FrameCap>)
    requires
        old(mem).wf(),
        cap_wf(old(tcb).cspace_root, old(mem)@.len()),
    ensures
        final(mem)@ == tcb_cap_invoke(old(mem)@, *old(tcb)).1,
        frame == tcb_cap_invoke(old(mem)@, *old(tcb)).2,
        final(tcb).ctx.x@ == old(tcb).ctx.x@.update(a_index(0), tcb_cap_invoke(old(mem)@, *old(tcb)).0),
        final(tcb).ctx.sepc == old(tcb).ctx.sepc,
        final(tcb).ctx.supervisor == old(tcb).ctx.supervisor,
        final(tcb).ctx.interrupt == old(tcb).ctx.interrupt,
        final(tcb).cspace_root == old(tcb).cspace_root,
        final(tcb).vspace_root == old(tcb).vspace_root,
        final(tcb).state == old(tcb).state,
        final(mem).wf(),
{
    let service = CPtr::new(tcb.ctx.a(0));
    let label = tcb.ctx.a(1);
    let args = [tcb.ctx.a(2), tcb.ctx.a(3), tcb.ctx.a(4), tcb.ctx.a(5)];

    let root_cnode = match tcb.cspace_root {
        Capability::CNode(root) => root,
        _ => {
            tcb.ctx.set_a(0, ERR_UNSUPPORTED_CAP);
            return None;
        },
    };

    let slot = match lookup_source_slot(mem, &root_cnode, service, usize::BITS) {
        Ok(slot) => slot,
        Err(_) => {
            tcb.ctx.set_a(0, ERR_LOOKUP);
            return None;
        },
    };

    match slot.cap(mem) {
        Capability::Untyped(untyped) => {
            assert(cap_wf(mem@[slot@ as int].cap, mem@.len()));
            let mut untyped = untyped;
            let ghost mem0 = mem@;
            assert(args@[0] == tcb.ctx.arg(2) && args@[1] == tcb.ctx.arg(3) && args@[2] == tcb.ctx.arg(4));
            let (code, frame) = handle_untyped_invoke(mem, &root_cnode, &mut untyped, label, args);
            let ghost rc = retype_check(mem0, root_cnode, mem0[slot@ as int].cap->Untyped_0, args@[0], args@[1] as nat, args@[2]);
            proof {
                if label == UNTYPED_RETYPE && rc is Ok {
                    lemma_resolve_in_bounds(mem0, root_cnode, args@[1] as nat, usize::BITS as nat);
                }
            }
            if frame.is_some() {
                slot.replace_cap(mem, Capability::Untyped(untyped));
                assert(mem@ =~= tcb_cap_invoke(old(mem)@, *old(tcb)).1);
            }
            tcb.ctx.set_a(0, code);
            frame
        },
        _ => {
            tcb.ctx.set_a(0, ERR_UNSUPPORTED_CAP);
            None
        },
    }
}

/// Dispatches an invocation of an untyped capability by its label.
/// Returns the result code and the frame a retype created.
fn handle_untyped_invoke(
    mem: &mut SlotMemory,
    root_cnode: &CNodeCap,
    untyped: &mut UntypedCap,
    label: usize,
    args: [usize; 4],
) -> (r: (usize, Option<FrameCap>))
    requires
        old(mem).wf(),
        root_cnode.fits_in(old(mem)@.len()),
        old(untyped).wf(),
    ensures
        final(mem).wf(),
        final(mem)@.len() == old(mem)@.len(),
        final(untyped).wf(),
        label != UNTYPED_RETYPE ==> r == (ERR_UNSUPPORTED_LABEL, None::<FrameCap>)
            && final(mem)@ == old(mem)@ && *final(untyped) == *old(untyped),
        label == UNTYPED_RETYPE ==> match retype_check(old(mem)@, *root_cnode, *old(untyped), args@[0], args@[1] as nat, args@[2]) {
            Err(e) => r == (e.code(), None::<FrameCap>) && final(mem)@ == old(mem)@
                && *final(untyped) == *old(untyped),
            Ok(a) => r == (OK as usize, Some(retyped_frame(*old(untyped), args@[2])))
                && final(mem)@ == old(mem)@.update(
                    a as int,
                    Slot { cap: Capability::Frame(retyped_frame(*old(untyped), args@[2])), mdb: MDBNode::spec_empty() },
                ) && *final(untyped) == retyped_untyped(*old(untyped), args@[2]),
        },
{
    if label == UNTYPED_RETYPE {
        let object_type = args[0];
        let destination = CPtr::new(args[1]);
        let size_bits = args[2];
        match untyped_retype(mem, root_cnode, untyped, object_type, destination, size_bits) {
            Ok(frame) => (OK as usize, Some(frame)),
            Err(err) => (usize::from(err), None),
        }
    } else {
        (ERR_UNSUPPORTED_LABEL, None)
    }
}

} // verus!
