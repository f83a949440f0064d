//! The rootserver's side of the boot handoff: reading the BootInfo regions
//! and forming its first capability invocation.

use vstd::prelude::*;
use crate::common::{BootInfo, SlotRegion};
use crate::common::invocation::{OK, UNTYPED_RETYPE, OBJECT_FRAME};

verus! {

/// Number of slots in a region (zero when it is inverted).
pub open spec fn region_len(region: SlotRegion) -> nat {
    if region.end@ >= region.start@ {
        (region.end@ - region.start@) as nat
    } else {
        0
    }
}

/// Number of slots in `region`.
pub fn slot_region_len(region: SlotRegion) -> (n: usize)
    ensures
        n == region_len(region),
{
    region.end.raw().saturating_sub(region.start.raw())
}

/// Number of frames of the rootserver's own image.
pub fn user_image_frame_count(bootinfo: &BootInfo) -> (n: usize)
    ensures
        n == region_len(bootinfo.user_image_frames),
{
    slot_region_len(bootinfo.user_image_frames)
}

/// Number of untyped capabilities handed over at boot.
pub fn untyped_count(bootinfo: &BootInfo) -> (n: usize)
    ensures
        n == region_len(bootinfo.untyped),
{
    slot_region_len(bootinfo.untyped)
}

/// The registers of a capability invocation (`a0..a4`).
#[derive(Debug, Copy, Clone, PartialEq, Eq, Structural)]
pub struct InvokeRequest {
    /// The capability to invoke.
    pub service: usize,
    /// The operation.
    pub label: usize,
    /// First argument (for a retype: the object type).
    pub arg0: usize,
    /// Second argument (for a retype: the destination slot).
    pub arg1: usize,
    /// Third argument (for a retype: the object's size bits).
    pub arg2: usize,
}

/// The first retype the rootserver asks for: one page frame cut from the
/// first untyped capability, placed in the first empty slot.
pub open spec fn first_frame_retype(bootinfo: BootInfo) -> InvokeRequest {
    InvokeRequest {
        service: bootinfo.untyped.start@,
        label: UNTYPED_RETYPE,
        arg0: OBJECT_FRAME,
        arg1: bootinfo.empty.start@,
        arg2: 12,
    }
}

/// Forms the rootserver's first retype request from the BootInfo.
pub fn request_first_frame_retype(bootinfo: &BootInfo) -> (req: InvokeRequest)
    ensures
        req == first_frame_retype(*bootinfo),
{
    let service = bootinfo.untyped.start.raw();
    let destination = bootinfo.empty.start.raw();
    let size_bits: usize = 12;
    InvokeRequest {
        service,
        label: UNTYPED_RETYPE,
        arg0: OBJECT_FRAME,
        arg1: destination,
        arg2: size_bits,
    }
}

/// Whether an invocation's return value reports success.
pub fn invocation_succeeded(ret: isize) -> (ok: bool)
    ensures
        ok == (ret == OK),
{
    ret == OK
}

} // verus!
