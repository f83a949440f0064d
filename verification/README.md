# sal4

A small seL4-style capability microkernel for RISC-V, whose decisions are
written and proved in Verus.

## Layout

- `src/` — the verified library (crate `sal4`):
  - `common` — the boot ABI shared with the rootserver: `CPtr`,
    `SlotRegion`, `BootInfo`, invocation codes and syscall numbers.
  - `config` — kernel constants (page size, root cnode layout, boot window).
  - `context` — a thread's saved register file.
  - `arith` — bit-field extraction, power-of-two rounding, trailing zeros,
    integer logarithm.
  - `kernel::cap` — capabilities, the slot memory holding every cnode,
    capability-pointer resolution (`utils`), untyped retype and capability
    invocation (`invocation`), thread control blocks (`threads`).
  - `kernel::boot` — the boot arena, the free-memory window and untyped
    stream (`mm`), the rootserver image and its traps (`rootserver`), and
    `bootstrap`, which produces the initial cnode, root thread and BootInfo.
  - `kernel::syscall` — syscall dispatch; machine effects are returned as
    actions.
  - `rootserver` — the rootserver's reading of the BootInfo and its first
    retype request.
  - `handoff` — laws joining the kernel and rootserver sides.
  - `null_kernel` — the null kernel: flat per-task capability
    spaces, capability-checked syscalls and a recursive cnode walk.
- `tests/` — executable tests of the library.
- `app/` — the kernel program around the library: early init, writing the
  BootInfo page, the rootserver trap loop, console and SBI calls, and the
  rootserver task's syscalls.
