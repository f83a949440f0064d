//! Kernel configuration constants.

use vstd::prelude::*;

verus! {

/// Size of a base page in bytes.
pub const PAGE_SIZE: usize = 4096;
/// Size bits of the smallest untyped object (and of every frame created by retype).
pub const MIN_UNTYPED_SIZE_BITS: u8 = 12;

/// Radix bits of the root cnode.
pub const ROOT_CNODE_RADIX_BITS: u8 = 8;
/// Number of slots in the root cnode (`1 << ROOT_CNODE_RADIX_BITS`).
pub const ROOT_CNODE_SLOTS: usize = 256;
/// Largest number of untyped capabilities exported at boot.
pub const MAX_UNTYPED_OBJECTS: usize = 128;

/// Fixed slot that always stays empty.
pub const ROOT_CNODE_SLOT_NULL: usize = 0;
/// Fixed slot of the root TCB capability.
pub const ROOT_CNODE_SLOT_TCB: usize = 1;
/// Fixed slot of the root cnode capability itself.
pub const ROOT_CNODE_SLOT_CNODE: usize = 2;
/// Fixed slot of the IRQ control capability.
pub const ROOT_CNODE_SLOT_IRQ_CTRL: usize = 3;
/// Fixed slot of the frame capability to the BootInfo page.
pub const ROOT_CNODE_SLOT_BOOTINFO_FRAME: usize = 4;
/// Fixed slot of the frame capability to the IPC buffer page.
pub const ROOT_CNODE_SLOT_IPC_BUFFER: usize = 5;

/// First slot after the fixed boot-time slots.
pub const FIRST_USER_IMAGE_FRAME_SLOT: usize = 6;
/// Size of the rootserver's initial stack.
pub const ROOTSERVER_STACK_SIZE: usize = 4096;

/// Early-boot RAM budget: bootstrap treats
/// `[kernel_end, kernel_end + EARLY_BOOT_MEMORY_SIZE)` as the boot-time
/// free memory window.
pub const EARLY_BOOT_MEMORY_SIZE: usize = 8388608;

} // verus!
