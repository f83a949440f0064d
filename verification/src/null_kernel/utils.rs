//! Capability pointers of the null kernel and its recursive
//! cnode walk.

use vstd::prelude::*;
use vstd::arithmetic::power2::lemma_pow2_pos;
use vstd::arithmetic::div_mod::lemma_mod_pos_bound;
use vstd::arithmetic::power2::pow2;
use crate::arith::{extract, extract_bits};
use crate::kernel::cap::{Capability, CNodeCap, Slot, SlotMemory, cap_wf};

verus! {

/// A capability pointer.
#[derive(Debug, PartialEq, Eq, Structural)]
pub struct CPtr(usize);

impl View for CPtr {
    type V = usize;

    closed spec fn view(&self) -> usize {
        self.0
    }
}

/// A capability pointer is its raw word: two capability pointers are equal
/// exactly when their raw words are, so `CPtr::new` is one to one.
pub proof fn lemma_cptr_view_injective(a: CPtr, b: CPtr)
    ensures
        (a == b) <==> (a@ == b@),
{
}

impl CPtr {
    /// Wraps a raw word as a capability pointer.
    pub fn new(raw: usize) -> (c: CPtr)
        ensures
            c@ == raw,
    {
        CPtr(raw)
    }
}

/// Why a capability lookup failed.
#[derive(Debug, PartialEq, Eq, Structural)]
pub enum LookupError {
    /// The cptr's guard bits do not match the cnode's guard.
    GuardMismatch,
    /// A non-cnode capability was reached before the address bits ran out.
    TooDeep,
    /// The address bits ran out before a terminal slot was reached.
    InvalidPath,
    /// The slot holds the null capability.
    EmptySlot,
}

/// The slot that resolving the low `bits_left` bits of `raw` from cnode
/// `node` reaches: guard bits must match, radix bits index a slot, a cnode
/// there is entered with the remaining bits, an empty slot is an error, and
/// any other capability is the result exactly when no bits remain.
pub open spec fn recursive_resolve(mem: Seq<Slot>, node: CNodeCap, raw: nat, bits_left: nat) -> Result<Slot, LookupError>
    decreases bits_left,
    when node.guard_size + node.radix_bits > 0
{
    if bits_left < node.guard_size {
        Err(LookupError::InvalidPath)
    } else {
        let after_guard = (bits_left - node.guard_size) as nat;
        if extract_bits(raw, after_guard, node.guard_size as nat) != node.guard {
            Err(LookupError::GuardMismatch)
        } else if after_guard < node.radix_bits {
            Err(LookupError::InvalidPath)
        } else {
            let after_index = (after_guard - node.radix_bits) as nat;
            let target = mem[node.storage + extract_bits(raw, after_index, node.radix_bits as nat)];
            match target.cap {
                Capability::CNode(next) => recursive_resolve(mem, next, raw, after_index),
                Capability::Null => Err(LookupError::EmptySlot),
                _ => if after_index == 0 {
                    Ok(target)
                } else {
                    Err(LookupError::TooDeep)
                },
            }
        }
    }
}

/// Resolves `cptr` through the cnode tree rooted at `root`, one cnode level
/// per step, and copies the slot it names.
pub fn resolve_cptr(mem: &SlotMemory, root: &CNodeCap, cptr: CPtr, bits_left: u32) -> (r: Result<Slot, LookupError>)
    requires
        mem.wf(),
        root.fits_in(mem@.len()),
    ensures
        r == recursive_resolve(mem@, *root, cptr@ as nat, bits_left as nat),
    decreases bits_left,
{
    if bits_left < root.guard_size as u32 {
        return Err(LookupError::InvalidPath);
    }
    let bits_left = bits_left - root.guard_size as u32;
    let flag = extract(cptr.0, bits_left, root.guard_size as u32);
    if flag != root.guard {
        return Err(LookupError::GuardMismatch);
    }
    if bits_left < root.radix_bits as u32 {
        return Err(LookupError::InvalidPath);
    }
    let bits_left = bits_left - root.radix_bits as u32;
    let index = extract(cptr.0, bits_left, root.radix_bits as u32);
    let len = mem.slots.len();
    proof {
        lemma_pow2_pos(root.radix_bits as nat);
        lemma_pow2_pos(bits_left as nat);
        let q: nat = cptr@ as nat / pow2(bits_left as nat);
        lemma_mod_pos_bound(q as int, pow2(root.radix_bits as nat) as int);
    }
    let target = mem.slots[root.storage + index];
    proof {
        assert(cap_wf(mem@[root.storage + index].cap, mem@.len()));
    }
    match target.cap {
        Capability::CNode(next) => resolve_cptr(mem, &next, cptr, bits_left),
        Capability::Null => Err(LookupError::EmptySlot),
        _ => if bits_left == 0 {
            Ok(target)
        } else {
            Err(LookupError::TooDeep)
        },
    }
}

} // verus!
