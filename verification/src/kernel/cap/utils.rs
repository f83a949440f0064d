//! Capability-pointer resolution through the cnode tree, and typed handles
//! on the slot that a lookup found.

use vstd::prelude::*;
use vstd::arithmetic::power2::{pow2, lemma_pow2_pos};
use vstd::arithmetic::div_mod::lemma_mod_pos_bound;
use crate::arith::{extract, extract_bits, is_power_of_two, round_up, lemma_pow2_fits, lemma_round_up};
use vstd::bits::{low_bits_mask, lemma_usize_low_bits_mask_is_mod};
use crate::common::CPtr;
use super::{Capability, CNodeCap, Slot, SlotMemory, cap_wf, slots_wf, lemma_write_keeps_wf};

verus! {

/// Why a capability lookup failed.
#[derive(Debug, PartialEq, Eq, Structural)]
pub enum LookupError {
    /// The cptr's guard bits do not match the cnode's guard.
    GuardMismatch,
    /// A non-cnode capability was reached before the address bits ran out.
    TooDeep,
    /// The address bits ran out before a terminal slot was reached.
    InvalidPath,
    /// The slot holds the null capability.
    EmptySlot,
    /// An empty slot was expected, but the slot holds a capability.
    SlotNotEmpty,
}

/// Where resolving the low `bits_left` bits of `raw`, starting at cnode
/// `node`, leads: at each cnode, `guard_size` bits must equal the guard and
/// the next `radix_bits` bits index a slot; a cnode capability there is
/// entered with the remaining bits, any other capability ends the walk,
/// which succeeds exactly when no bits remain.
pub open spec fn resolve(mem: Seq<Slot>, node: CNodeCap, raw: nat, bits_left: nat) -> Result<usize, LookupError>
    decreases bits_left,
    when node.guard_size + node.radix_bits > 0
{
    if bits_left < node.guard_size {
        Err(LookupError::InvalidPath)
    } else {
        let after_guard = (bits_left - node.guard_size) as nat;
        if extract_bits(raw, after_guard, node.guard_size as nat) != node.guard {
            Err(LookupError::GuardMismatch)
        } else if after_guard < node.radix_bits {
            Err(LookupError::InvalidPath)
        } else {
            let after_index = (after_guard - node.radix_bits) as nat;
            let addr = node.storage + extract_bits(raw, after_index, node.radix_bits as nat);
            match mem[addr].cap {
                Capability::CNode(next) => resolve(mem, next, raw, after_index),
                _ => if after_index == 0 {
                    Ok(addr as usize)
                } else {
                    Err(LookupError::TooDeep)
                },
            }
        }
    }
}

/// The guard decides the first step of a resolution at cnode `node` with
/// `g` guard bits and `r` radix bits: when the `g` bits just below the top
/// `bits_left` bits of `raw` differ from the guard the resolution fails with
/// `GuardMismatch`; when they equal it and exactly `g + r` bits are left,
/// the low `r` bits index the cnode and, unless that slot holds a cnode,
/// name that slot.
pub proof fn lemma_resolve_guard(mem: Seq<Slot>, node: CNodeCap, raw: nat, bits_left: nat)
    requires
        node.guard_size + node.radix_bits > 0,
    ensures
        bits_left >= node.guard_size
            && (raw / pow2((bits_left - node.guard_size) as nat)) % pow2(node.guard_size as nat) != node.guard
            ==> resolve(mem, node, raw, bits_left) == Err::<usize, LookupError>(LookupError::GuardMismatch),
        ({
            let idx = node.storage + raw % pow2(node.radix_bits as nat);
            bits_left == node.guard_size + node.radix_bits
                && (raw / pow2(node.radix_bits as nat)) % pow2(node.guard_size as nat) == node.guard
                && !(mem[idx].cap is CNode)
                ==> resolve(mem, node, raw, bits_left) == Ok::<usize, LookupError>(idx as usize)
        }),
{
    vstd::arithmetic::power2::lemma2_to64();
    assert(pow2(0) == 1);
    assert(raw / 1 == raw);
}

/// A resolved slot must hold a capability.
pub open spec fn source_lookup(mem: Seq<Slot>, node: CNodeCap, raw: nat, bits_left: nat) -> Result<usize, LookupError> {
    match resolve(mem, node, raw, bits_left) {
        Ok(a) => if mem[a as int].cap is Null {
            Err(LookupError::EmptySlot)
        } else {
            Ok(a)
        },
        Err(e) => Err(e),
    }
}

/// A resolved slot must be empty.
pub open spec fn empty_lookup(mem: Seq<Slot>, node: CNodeCap, raw: nat, bits_left: nat) -> Result<usize, LookupError> {
    match resolve(mem, node, raw, bits_left) {
        Ok(a) => if mem[a as int].cap is Null {
            Ok(a)
        } else {
            Err(LookupError::SlotNotEmpty)
        },
        Err(e) => Err(e),
    }
}

/// A resolved slot is either present or empty: for the same path, exactly
/// one of the source lookup and the empty lookup succeeds, and both fail
/// with the resolution's error when it fails.
pub proof fn lemma_present_or_empty(mem: Seq<Slot>, node: CNodeCap, raw: nat, bits_left: nat)
    ensures
        resolve(mem, node, raw, bits_left) is Ok ==> (source_lookup(mem, node, raw, bits_left) is Ok
            != empty_lookup(mem, node, raw, bits_left) is Ok),
        resolve(mem, node, raw, bits_left) matches Err(e) ==> source_lookup(mem, node, raw, bits_left)
            == Err::<usize, LookupError>(e) && empty_lookup(mem, node, raw, bits_left) == Err::<usize, LookupError>(e),
{
}

/// A successful resolution ends inside the slot memory.
pub proof fn lemma_resolve_in_bounds(mem: Seq<Slot>, node: CNodeCap, raw: nat, bits_left: nat)
    requires
        slots_wf(mem),
        node.fits_in(mem.len()),
    ensures
        resolve(mem, node, raw, bits_left) matches Ok(a) ==> a < mem.len(),
    decreases bits_left,
{
    if bits_left >= node.guard_size {
        let after_guard = (bits_left - node.guard_size) as nat;
        if extract_bits(raw, after_guard, node.guard_size as nat) == node.guard && after_guard >= node.radix_bits {
            let after_index = (after_guard - node.radix_bits) as nat;
            lemma_pow2_pos(node.radix_bits as nat);
            let addr = node.storage + extract_bits(raw, after_index, node.radix_bits as nat);
            assert(cap_wf(mem[addr].cap, mem.len()));
            if let Capability::CNode(next) = mem[addr].cap {
                lemma_resolve_in_bounds(mem, next, raw, after_index);
            }
        }
    }
}

/// Resolution reads only the cnode capabilities on its path: two slot
/// memories of one length whose slots hold the same cnode capabilities
/// (a slot holds a cnode in one exactly when it holds the same cnode in the
/// other) resolve every path alike.
pub proof fn lemma_resolve_same_tree(mem: Seq<Slot>, other: Seq<Slot>, node: CNodeCap, raw: nat, bits_left: nat)
    requires
        slots_wf(mem),
        node.fits_in(mem.len()),
        other.len() == mem.len(),
        forall|k: int| 0 <= k < mem.len() && (#[trigger] mem[k].cap is CNode || other[k].cap is CNode)
            ==> mem[k].cap == other[k].cap,
    ensures
        resolve(mem, node, raw, bits_left) == resolve(other, node, raw, bits_left),
    decreases bits_left,
{
    if bits_left >= node.guard_size {
        let after_guard = (bits_left - node.guard_size) as nat;
        if extract_bits(raw, after_guard, node.guard_size as nat) == node.guard && after_guard >= node.radix_bits {
            let after_index = (after_guard - node.radix_bits) as nat;
            lemma_pow2_pos(node.radix_bits as nat);
            let addr = node.storage + extract_bits(raw, after_index, node.radix_bits as nat);
            assert(cap_wf(mem[addr].cap, mem.len()));
            if let Capability::CNode(next) = mem[addr].cap {
                lemma_resolve_same_tree(mem, other, next, raw, after_index);
            }
        }
    }
}

/// A slot found by a lookup, not yet checked for contents.
#[derive(Debug)]
pub struct UncheckedSlot(usize);

/// A slot found by a lookup that holds a capability.
#[derive(Debug)]
pub struct PresentSlot(usize);

/// A slot found by a lookup that is empty.
#[derive(Debug)]
pub struct EmptySlot(usize);

impl View for UncheckedSlot {
    type V = usize;

    closed spec fn view(&self) -> usize {
        self.0
    }
}

impl View for PresentSlot {
    type V = usize;

    closed spec fn view(&self) -> usize {
        self.0
    }
}

impl View for EmptySlot {
    type V = usize;

    closed spec fn view(&self) -> usize {
        self.0
    }
}

impl UncheckedSlot {
    /// The slot, if it holds a capability; `EmptySlot` otherwise.
    pub fn ensure_present(self, mem: &SlotMemory) -> (r: Result<PresentSlot, LookupError>)
        requires
            self@ < mem@.len(),
        ensures
            match r {
                Ok(p) => p@ == self@ && !(mem@[self@ as int].cap is Null),
                Err(e) => e == LookupError::EmptySlot && mem@[self@ as int].cap is Null,
            },
    {
        ensure_present_slot(mem, self.0)?;
        Ok(PresentSlot(self.0))
    }

    /// The slot, if it is empty; `SlotNotEmpty` otherwise.
    pub fn ensure_empty(self, mem: &SlotMemory) -> (r: Result<EmptySlot, LookupError>)
        requires
            self@ < mem@.len(),
        ensures
            match r {
                Ok(p) => p@ == self@ && mem@[self@ as int].cap is Null,
                Err(e) => e == LookupError::SlotNotEmpty && !(mem@[self@ as int].cap is Null),
            },
    {
        ensure_empty_slot(mem, self.0)?;
        Ok(EmptySlot(self.0))
    }
}

impl PresentSlot {
    /// The capability held by the slot.
    pub fn cap(&self, mem: &SlotMemory) -> (c: Capability)
        requires
            self@ < mem@.len(),
        ensures
            c == mem@[self@ as int].cap,
    {
        mem.slots[self.0].cap
    }

    /// A copy of the whole slot.
    pub fn snapshot(&self, mem: &SlotMemory) -> (s: Slot)
        requires
            self@ < mem@.len(),
        ensures
            s == mem@[self@ as int],
    {
        mem.slots[self.0]
    }

    /// Replaces the capability held by the slot, keeping its derivation links.
    pub fn replace_cap(&self, mem: &mut SlotMemory, cap: Capability)
        requires
            self@ < old(mem)@.len(),
            old(mem).wf(),
            cap_wf(cap, old(mem)@.len()),
        ensures
            final(mem)@ == old(mem)@.update(
                self@ as int,
                Slot { cap: cap, mdb: old(mem)@[self@ as int].mdb },
            ),
            final(mem).wf(),
    {
        let mdb = mem.slots[self.0].mdb;
        proof {
            lemma_write_keeps_wf(mem@, self@ as int, Slot { cap: cap, mdb: mdb });
        }
        mem.write(self.0, Slot { cap, mdb });
    }
}

impl EmptySlot {
    /// Writes `slot` into the empty slot.
    pub fn write(self, mem: &mut SlotMemory, slot: Slot)
        requires
            self@ < old(mem)@.len(),
            old(mem).wf(),
            cap_wf(slot.cap, old(mem)@.len()),
        ensures
            final(mem)@ == old(mem)@.update(self@ as int, slot),
            final(mem).wf(),
    {
        proof {
            lemma_write_keeps_wf(mem@, self@ as int, slot);
        }
        mem.write(self.0, slot);
    }
}

/// Walks the cnode tree from `root` along the low `bits_left` bits of `cptr`.
fn resolve_address_bits(mem: &SlotMemory, root: &CNodeCap, cptr: CPtr, bits_left: u32) -> (r: Result<usize, LookupError>)
    requires
        mem.wf(),
        root.fits_in(mem@.len()),
    ensures
        r == resolve(mem@, *root, cptr@ as nat, bits_left as nat),
        r matches Ok(a) ==> a < mem@.len(),
{
    proof {
        lemma_resolve_in_bounds(mem@, *root, cptr@ as nat, bits_left as nat);
    }
    let raw = cptr.raw();
    let mut current = *root;
    let mut bits: u32 = bits_left;
    loop
        invariant
            mem.wf(),
            current.fits_in(mem@.len()),
            raw == cptr@,
            resolve(mem@, current, raw as nat, bits as nat) == resolve(mem@, *root, raw as nat, bits_left as nat),
        decreases bits,
    {
        let guard_size = current.guard_size as u32;
        if bits < guard_size {
            return Err(LookupError::InvalidPath);
        }
        bits = bits - guard_size;
        let flag = extract(raw, bits, guard_size);
        if flag != current.guard {
            return Err(LookupError::GuardMismatch);
        }
        let radix_bits = current.radix_bits as u32;
        if bits < radix_bits {
            return Err(LookupError::InvalidPath);
        }
        bits = bits - radix_bits;
        let index = extract(raw, bits, radix_bits);
        let len = mem.slots.len();
        proof {
            lemma_pow2_pos(radix_bits as nat);
            lemma_pow2_pos(bits as nat);
            let q: nat = raw as nat / pow2(bits as nat);
            lemma_mod_pos_bound(q as int, pow2(radix_bits as nat) as int);
        }
        let addr = current.storage + index;
        let target = mem.slots[addr];
        proof {
            assert(cap_wf(mem@[addr as int].cap, mem@.len()));
        }
        match target.cap {
            Capability::CNode(next) => {
                current = next;
            },
            _ => {
                if bits == 0 {
                    return Ok(addr);
                } else {
                    return Err(LookupError::TooDeep);
                }
            },
        }
    }
}

/// Resolves `cptr` to a slot, whatever it holds.
pub fn lookup_slot(mem: &SlotMemory, root: &CNodeCap, cptr: CPtr, bits_left: u32) -> (r: Result<UncheckedSlot, LookupError>)
    requires
        mem.wf(),
        root.fits_in(mem@.len()),
    ensures
        match r {
            Ok(s) => resolve(mem@, *root, cptr@ as nat, bits_left as nat) == Ok::<usize, LookupError>(s@)
                && s@ < mem@.len(),
            Err(e) => resolve(mem@, *root, cptr@ as nat, bits_left as nat) == Err::<usize, LookupError>(e),
        },
{
    match resolve_address_bits(mem, root, cptr, bits_left) {
        Ok(a) => Ok(UncheckedSlot(a)),
        Err(e) => Err(e),
    }
}

/// Resolves `cptr` to a slot that must hold a capability.
pub fn lookup_source_slot(mem: &SlotMemory, root: &CNodeCap, cptr: CPtr, bits_left: u32) -> (r: Result<PresentSlot, LookupError>)
    requires
        mem.wf(),
        root.fits_in(mem@.len()),
    ensures
        match r {
            Ok(s) => source_lookup(mem@, *root, cptr@ as nat, bits_left as nat) == Ok::<usize, LookupError>(s@)
                && s@ < mem@.len(),
            Err(e) => source_lookup(mem@, *root, cptr@ as nat, bits_left as nat) == Err::<usize, LookupError>(e),
        },
{
    lookup_slot(mem, root, cptr, bits_left)?.ensure_present(mem)
}

/// Resolves `cptr` to a slot that is about to be written.
pub fn lookup_target_slot(mem: &SlotMemory, root: &CNodeCap, cptr: CPtr, bits_left: u32) -> (r: Result<UncheckedSlot, LookupError>)
    requires
        mem.wf(),
        root.fits_in(mem@.len()),
    ensures
        match r {
            Ok(s) => resolve(mem@, *root, cptr@ as nat, bits_left as nat) == Ok::<usize, LookupError>(s@)
                && s@ < mem@.len(),
            Err(e) => resolve(mem@, *root, cptr@ as nat, bits_left as nat) == Err::<usize, LookupError>(e),
        },
{
    lookup_slot(mem, root, cptr, bits_left)
}

/// Resolves `cptr` to a slot that must be empty.
pub fn lookup_empty_slot(mem: &SlotMemory, root: &CNodeCap, cptr: CPtr, bits_left: u32) -> (r: Result<EmptySlot, LookupError>)
    requires
        mem.wf(),
        root.fits_in(mem@.len()),
    ensures
        match r {
            Ok(s) => empty_lookup(mem@, *root, cptr@ as nat, bits_left as nat) == Ok::<usize, LookupError>(s@)
                && s@ < mem@.len(),
            Err(e) => empty_lookup(mem@, *root, cptr@ as nat, bits_left as nat) == Err::<usize, LookupError>(e),
        },
{
    lookup_slot(mem, root, cptr, bits_left)?.ensure_empty(mem)
}

/// Resolves `cptr` to a slot holding a capability, and returns both.
pub fn lookup_cap_and_slot(mem: &SlotMemory, root: &CNodeCap, cptr: CPtr, bits_left: u32) -> (r: Result<(Capability, PresentSlot), LookupError>)
    requires
        mem.wf(),
        root.fits_in(mem@.len()),
    ensures
        match r {
            Ok((c, s)) => source_lookup(mem@, *root, cptr@ as nat, bits_left as nat) == Ok::<usize, LookupError>(s@)
                && s@ < mem@.len() && c == mem@[s@ as int].cap,
            Err(e) => source_lookup(mem@, *root, cptr@ as nat, bits_left as nat) == Err::<usize, LookupError>(e),
        },
{
    let slot = lookup_source_slot(mem, root, cptr, bits_left)?;
    let cap = slot.cap(mem);
    Ok((cap, slot))
}

/// `Ok` when the slot at `slot` holds a capability, `EmptySlot` otherwise.
pub fn ensure_present_slot(mem: &SlotMemory, slot: usize) -> (r: Result<(), LookupError>)
    requires
        slot < mem@.len(),
    ensures
        r == (if mem@[slot as int].cap is Null {
            Err::<(), LookupError>(LookupError::EmptySlot)
        } else {
            Ok(())
        }),
{
    if matches!(mem.slots[slot].cap, Capability::Null) {
        Err(LookupError::EmptySlot)
    } else {
        Ok(())
    }
}

/// `Ok` when the slot at `slot` is empty, `SlotNotEmpty` otherwise.
pub fn ensure_empty_slot(mem: &SlotMemory, slot: usize) -> (r: Result<(), LookupError>)
    requires
        slot < mem@.len(),
    ensures
        r == (if mem@[slot as int].cap is Null {
            Ok::<(), LookupError>(())
        } else {
            Err(LookupError::SlotNotEmpty)
        }),
{
    if matches!(mem.slots[slot].cap, Capability::Null) {
        Ok(())
    } else {
        Err(LookupError::SlotNotEmpty)
    }
}

/// Resolves `cptr` to a slot holding a capability, and copies the slot.
pub fn resolve_cptr(mem: &SlotMemory, root: &CNodeCap, cptr: CPtr, bits_left: u32) -> (r: Result<Slot, LookupError>)
    requires
        mem.wf(),
        root.fits_in(mem@.len()),
    ensures
        match r {
            Ok(s) => exists|a: usize| #![auto] source_lookup(mem@, *root, cptr@ as nat, bits_left as nat) == Ok::<usize, LookupError>(a)
                && a < mem@.len() && s == mem@[a as int],
            Err(e) => source_lookup(mem@, *root, cptr@ as nat, bits_left as nat) == Err::<usize, LookupError>(e),
        },
{
    let (_, slot) = lookup_cap_and_slot(mem, root, cptr, bits_left)?;
    Ok(slot.snapshot(mem))
}

/// `x` rounded up to the next multiple of the power of two `align`.
pub fn align_up(x: usize, align: usize) -> (r: usize)
    requires
        is_power_of_two(align as nat),
        x + align - 1 <= usize::MAX,
    ensures
        r == round_up(x as nat, align as nat),
        r % align == 0,
        x <= r < x + align,
{
    let ghost k = choose|k: nat| pow2(k) == align as nat;
    proof {
        lemma_pow2_pos(k);
        lemma_pow2_fits(k);
        lemma_usize_low_bits_mask_is_mod((x + (align - 1)) as usize, k);
        lemma_round_up(x as int, align as int);
    }
    let y: usize = x + (align - 1);
    let m: usize = align - 1;
    assert(m == low_bits_mask(k));
    assert((y & !m) + (y & m) == y) by (bit_vector);
    y & !m
}

} // verus!
