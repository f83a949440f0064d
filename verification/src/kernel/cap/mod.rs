//! Capabilities, cnode slots and the memory that holds every cnode's slots.
//!
//! A cnode's storage is a run of consecutive slots in [`SlotMemory`]; a slot
//! is addressed by its index there, and a cnode capability records the index
//! of its first slot.

use vstd::prelude::*;
use vstd::arithmetic::power2::pow2;
use crate::config::PAGE_SIZE;

pub mod utils;
pub mod threads;
pub mod invocation;

verus! {

/// A region of untyped physical memory that can be retyped into objects.
#[derive(Debug, Copy, Clone, PartialEq, Eq, Structural)]
pub struct UntypedCap {
    /// Physical base address of the region.
    pub paddr: usize,
    /// The region spans `2^size_bits` bytes.
    pub size_bits: u8,
    /// Whether the region is device memory.
    pub is_device: bool,
    /// Bytes of the region already handed out, from its base.
    pub free_offset: usize,
}

/// A capability to a cnode: a table of `2^radix_bits` slots.
#[derive(Debug, Copy, Clone, PartialEq, Eq, Structural)]
pub struct CNodeCap {
    /// Index in [`SlotMemory`] of the cnode's first slot.
    pub storage: usize,
    /// The cnode has `2^radix_bits` slots.
    pub radix_bits: u8,
    /// Number of address bits that must equal `guard` before indexing.
    pub guard_size: u8,
    /// The guard value.
    pub guard: usize,
}

/// A capability to a thread control block.
#[derive(Debug, Copy, Clone, PartialEq, Eq, Structural)]
pub struct TCBCap {
    /// Address of the thread control block.
    pub ptr: usize,
}

/// The capability to manage interrupts.
#[derive(Debug, Copy, Clone, PartialEq, Eq, Structural)]
pub struct IRQControlCap;

/// A capability to a physical frame.
#[derive(Debug, Copy, Clone, PartialEq, Eq, Structural)]
pub struct FrameCap {
    /// Physical base address of the frame.
    pub paddr: usize,
    /// The frame spans `2^size_bits` bytes.
    pub size_bits: u8,
}

/// The contents of a slot.
#[derive(Debug, Copy, Clone, PartialEq, Eq, Structural)]
pub enum Capability {
    Null,
    Untyped(UntypedCap),
    CNode(CNodeCap),
    Tcb(TCBCap),
    IRQControl(IRQControlCap),
    Frame(FrameCap),
}

/// Links of a slot in the capability derivation tree (slot addresses).
#[derive(Debug, Copy, Clone, PartialEq, Eq, Structural)]
pub struct MDBNode {
    pub parent: Option<usize>,
    pub next: Option<usize>,
    pub prev: Option<usize>,
}

impl MDBNode {
    /// A node with no links.
    pub fn empty() -> (n: MDBNode)
        ensures
            n == MDBNode::spec_empty(),
    {
        MDBNode { parent: None, next: None, prev: None }
    }

    /// A node with no links, as a spec value.
    pub open spec fn spec_empty() -> MDBNode {
        MDBNode { parent: None, next: None, prev: None }
    }
}

/// One slot of a cnode.
#[derive(Debug, Copy, Clone, PartialEq, Eq, Structural)]
pub struct Slot {
    pub cap: Capability,
    pub mdb: MDBNode,
}

impl Slot {
    /// A slot holding the null capability and no derivation links.
    pub fn empty() -> (s: Slot)
        ensures
            s == Slot::spec_empty(),
    {
        Slot { cap: Capability::Null, mdb: MDBNode::empty() }
    }

    /// The empty slot, as a spec value.
    pub open spec fn spec_empty() -> Slot {
        Slot { cap: Capability::Null, mdb: MDBNode::spec_empty() }
    }
}

impl CNodeCap {
    /// The cnode's slots lie inside a slot memory of `len` slots, and every
    /// resolution step through it consumes at least one address bit.
    pub open spec fn fits_in(self, len: nat) -> bool {
        &&& self.storage + pow2(self.radix_bits as nat) <= len
        &&& self.guard_size + self.radix_bits > 0
    }
}

impl UntypedCap {
    /// The region, and a page of rounding past the end of its used part and
    /// past its end, lie inside the address space, and its size is a
    /// shift amount of a word.
    ///
    /// The page of headroom is a machine limit, not a rule of the kernel:
    /// rounding the used part up to a page must not overflow a word. It only
    /// rules out regions in the last page of the address space, far above
    /// the 56-bit physical addresses of RV64.
    pub open spec fn wf(self) -> bool {
        &&& self.size_bits < usize::BITS
        &&& self.paddr + pow2(self.size_bits as nat) + PAGE_SIZE <= usize::MAX + 1
        &&& self.paddr + self.free_offset + PAGE_SIZE <= usize::MAX + 1
    }
}

/// A capability is well formed in a slot memory of `len` slots.
pub open spec fn cap_wf(cap: Capability, len: nat) -> bool {
    match cap {
        Capability::CNode(c) => c.fits_in(len),
        Capability::Untyped(u) => u.wf(),
        _ => true,
    }
}

/// The memory holding the slots of every cnode.
pub struct SlotMemory {
    pub slots: Vec<Slot>,
}

impl View for SlotMemory {
    type V = Seq<Slot>;

    open spec fn view(&self) -> Seq<Slot> {
        self.slots@
    }
}

/// Every capability stored in the slots is well formed.
pub open spec fn slots_wf(s: Seq<Slot>) -> bool {
    forall|i: int| 0 <= i < s.len() ==> #[trigger] cap_wf(s[i].cap, s.len())
}

impl SlotMemory {
    /// Every capability stored in the memory is well formed.
    pub open spec fn wf(&self) -> bool {
        slots_wf(self@)
    }

    /// Writes `slot` at address `addr`; every other slot is unchanged.
    pub fn write(&mut self, addr: usize, slot: Slot)
        requires
            addr < old(self)@.len(),
        ensures
            final(self)@ == old(self)@.update(addr as int, slot),
    {
        self.slots.set(addr, slot);
    }
}

/// Writing a well-formed capability keeps the slot memory well formed.
pub proof fn lemma_write_keeps_wf(s: Seq<Slot>, addr: int, slot: Slot)
    requires
        slots_wf(s),
        0 <= addr < s.len(),
        cap_wf(slot.cap, s.len()),
    ensures
        slots_wf(s.update(addr, slot)),
{
    assert forall|i: int| 0 <= i < s.update(addr, slot).len() implies #[trigger] cap_wf(
        s.update(addr, slot)[i].cap,
        s.update(addr, slot).len(),
    ) by {
        if i != addr {
            assert(cap_wf(s[i].cap, s.len()));
        }
    }
}

} // verus!
