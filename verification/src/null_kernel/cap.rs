//! Capabilities of the null kernel and the flat per-task
//! capability space.

use vstd::prelude::*;

verus! {

/// Number of slots in a task's flat capability space.
pub const NULL_CSPACE_SLOTS: usize = 4;

/// A capability to an endpoint, carrying the badge that identifies its holder.
#[derive(Debug, Copy, Clone, PartialEq, Eq, Structural)]
pub struct EndpointCap {
    pub badge: usize,
}

/// The contents of a capability-space slot.
#[derive(Debug, Copy, Clone, PartialEq, Eq, Structural)]
pub enum Capability {
    Null,
    Endpoint(EndpointCap),
    Tcb,
}

/// A task's flat capability space.
#[derive(Debug, Copy, Clone)]
pub struct CSpace {
    pub slots: [Capability; NULL_CSPACE_SLOTS],
}

impl CSpace {
    /// A capability space whose slots are all empty.
    pub fn empty() -> (c: CSpace)
        ensures
            forall|i: int| 0 <= i < NULL_CSPACE_SLOTS ==> #[trigger] c.slots@[i] == Capability::Null,
    {
        CSpace { slots: [Capability::Null; NULL_CSPACE_SLOTS] }
    }

    /// The capability space of a task in the null kernel: slot 1 holds the
    /// endpoint with the task's badge (for writes), slot 2 its own TCB (for
    /// exit), every other slot is empty.
    pub fn for_null_kernel(badge: usize) -> (c: CSpace)
        ensures
            c.slots@ == CSpace::spec_for_null_kernel(badge),
    {
        let mut cspace = Self::empty();
        cspace.slots[1] = Capability::Endpoint(EndpointCap { badge });
        cspace.slots[2] = Capability::Tcb;
        assert(cspace.slots@ =~= CSpace::spec_for_null_kernel(badge));
        cspace
    }

    /// The null-kernel capability space for `badge`, slot by slot.
    pub open spec fn spec_for_null_kernel(badge: usize) -> Seq<Capability> {
        seq![Capability::Null, Capability::Endpoint(EndpointCap { badge }), Capability::Tcb, Capability::Null]
    }

    /// The capability in slot `slot_index`, or `None` past the last slot.
    pub fn lookup(&self, slot_index: usize) -> (r: Option<Capability>)
        ensures
            slot_index >= NULL_CSPACE_SLOTS ==> r is None,
            slot_index < NULL_CSPACE_SLOTS ==> r == Some(self.slots@[slot_index as int]),
    {
        if slot_index >= self.slots.len() {
            None
        } else {
            Some(self.slots[slot_index])
        }
    }
}

} // verus!
