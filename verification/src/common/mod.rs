//! The boot ABI shared by the kernel and the rootserver.

use vstd::prelude::*;

pub mod invocation;
pub mod sal4_syscall;

verus! {

/// Number of untyped entries the BootInfo lists can describe.
pub const MAX_UNTYPED_OBJECTS: usize = 128;

/// A capability pointer: a word of address bits resolved through a cnode tree.
#[derive(Debug, Copy, Clone, PartialEq, Eq, Structural)]
pub struct CPtr(usize);

impl View for CPtr {
    type V = usize;

    closed spec fn view(&self) -> usize {
        self.0
    }
}

/// A capability pointer is its raw word: two capability pointers are equal
/// exactly when their raw words are, so `CPtr::new` is one to one.
pub proof fn lemma_cptr_view_injective(a: CPtr, b: CPtr)
    ensures
        (a == b) <==> (a@ == b@),
{
}

impl CPtr {
    /// Wraps a raw word as a capability pointer.
    pub fn new(raw: usize) -> (c: CPtr)
        ensures
            c@ == raw,
    {
        CPtr(raw)
    }

    /// The raw word of the capability pointer.
    pub fn raw(self) -> (r: usize)
        ensures
            r == self@,
    {
        self.0
    }
}

/// A half-open range `[start, end)` of slots in the root cnode.
#[derive(Debug, Copy, Clone)]
pub struct SlotRegion {
    /// Inclusive start slot index in the root cnode.
    pub start: CPtr,
    /// Exclusive end slot index in the root cnode.
    pub end: CPtr,
}

/// The boot-time resource map that the kernel hands to the rootserver.
#[derive(Debug, Copy, Clone)]
pub struct BootInfo {
    /// Initial rootserver IPC buffer address.
    pub ipc_buffer: usize,
    /// Radix bits of the initial thread's root cnode.
    pub init_thread_cnode_size_bits: u8,
    /// Unused root cnode slots available after bootstrap.
    pub empty: SlotRegion,
    /// Root cnode slots describing the loaded rootserver image frames.
    pub user_image_frames: SlotRegion,
    /// Root cnode slots holding the exported untyped capabilities.
    pub untyped: SlotRegion,
    /// Physical base address of each exported untyped capability.
    pub untyped_paddr_list: [usize; MAX_UNTYPED_OBJECTS],
    /// Size bits of each exported untyped capability.
    pub untyped_size_bits_list: [u8; MAX_UNTYPED_OBJECTS],
}

} // verus!
