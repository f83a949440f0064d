//! Boot-time memory: the sequential arena that places the first kernel
//! objects, the free-memory window and the stream that cuts the remaining
//! memory into power-of-two untyped regions.

use vstd::prelude::*;
use vstd::arithmetic::power2::{pow2, lemma_pow2_pos};
use vstd::bits::{lemma_usize_shl_is_mul, lemma_usize_pow2_no_overflow};
use crate::arith::{
    is_power_of_two,
    round_up,
    trailing_zeros,
    ilog2,
    trailing_zeros_of,
    ilog2_of,
    lemma_pow2_word,
    lemma_pow2_fits,
    lemma_ilog2_bounds,
    lemma_pow2_mono,
    lemma_page_is_power_of_two,
    is_power_of_two_of,
    lemma_trailing_zeros_at_least,
    lemma_trailing_zeros_divides,
    lemma_pow2_divides_smaller,
    lemma_ilog2_at_least,
};
use vstd::arithmetic::power2::lemma_pow2_adds;
use crate::config::{PAGE_SIZE, EARLY_BOOT_MEMORY_SIZE, MIN_UNTYPED_SIZE_BITS};
use crate::kernel::cap::utils::align_up;
use super::rootserver::RootserverImage;

verus! {

/// A range of `len` bytes from `start` that must be zero-filled before use.
#[derive(Debug, Copy, Clone, PartialEq, Eq, Structural)]
pub struct ZeroRange {
    pub start: usize,
    pub len: usize,
}

/// A bump allocator over the boot-time free memory window.
///
/// Every block it hands out starts zeroed: the arena records each block as a
/// range to zero-fill, in the order of the allocations, and the caller that
/// owns the memory performs the fill before the block is used.
pub struct BootArena {
    current: usize,
    end: usize,
    zero_fill: Vec<ZeroRange>,
}

/// Where an allocation of `size` bytes aligned to `align` ends, placed at
/// the first suitable address not below `cursor` inside a window ending at
/// `end`; `None` when it would not fit.
pub open spec fn arena_step(cursor: nat, end: nat, size: nat, align: nat) -> Option<nat> {
    if is_power_of_two(align) && cursor + align - 1 <= usize::MAX && round_up(cursor, align) + size <= end {
        Some(round_up(cursor, align) + size)
    } else {
        None
    }
}

/// Where an allocation of `size` bytes aligned to `align` at or past
/// `cursor` would end in a window ending at `end`; `None` when it would not
/// fit.
pub fn arena_step_of(cursor: usize, end: usize, size: usize, align: usize) -> (r: Option<usize>)
    ensures
        match arena_step(cursor as nat, end as nat, size as nat, align as nat) {
            Some(n) => r == Some(n as usize),
            None => r is None,
        },
{
    if !is_power_of_two_of(align) {
        return None;
    }
    proof {
        lemma_power_of_two_positive(align as nat);
    }
    if cursor > usize::MAX - (align - 1) {
        return None;
    }
    let start = align_up(cursor, align);
    match start.checked_add(size) {
        None => None,
        Some(e) => if e <= end {
            Some(e)
        } else {
            None
        },
    }
}

/// A power of two is positive.
pub proof fn lemma_power_of_two_positive(a: nat)
    requires
        is_power_of_two(a),
    ensures
        a > 0,
{
    let k = choose|k: nat| pow2(k) == a;
    lemma_pow2_pos(k);
}

/// One request to the boot arena.
pub enum ArenaRequest {
    /// An object of `size` bytes aligned to `align` (`alloc_typed`).
    Typed { size: usize, align: usize },
    /// An array of `count` slots of `slot_size` bytes aligned to `slot_align`
    /// (`alloc_slots`).
    Slots { count: usize, slot_size: usize, slot_align: usize },
    /// One page (`alloc_page_paddr`).
    Page,
}

impl ArenaRequest {
    /// Bytes the request takes.
    pub open spec fn size(self) -> nat {
        match self {
            ArenaRequest::Typed { size, .. } => size as nat,
            ArenaRequest::Slots { count, slot_size, .. } => slot_size as nat * count as nat,
            ArenaRequest::Page => PAGE_SIZE as nat,
        }
    }

    /// Alignment the request asks for.
    pub open spec fn align(self) -> nat {
        match self {
            ArenaRequest::Typed { align, .. } => align as nat,
            ArenaRequest::Slots { slot_align, .. } => slot_align as nat,
            ArenaRequest::Page => PAGE_SIZE as nat,
        }
    }
}

/// Where a request served at `cursor` in a window ending at `end` is placed
/// and where the cursor goes next; `None` when it does not fit.
pub open spec fn arena_alloc(cursor: nat, end: nat, req: ArenaRequest) -> Option<(nat, nat)> {
    match arena_step(cursor, end, req.size(), req.align()) {
        Some(next) => Some((round_up(cursor, req.align()), next)),
        None => None,
    }
}

/// A sequence of requests served from `cursor`: the cursor afterwards and
/// the address of each block; `None` when one of them does not fit.
pub open spec fn arena_run(cursor: nat, end: nat, reqs: Seq<ArenaRequest>) -> Option<(nat, Seq<nat>)>
    decreases reqs.len(),
{
    if reqs.len() == 0 {
        Some((cursor, Seq::empty()))
    } else {
        match arena_run(cursor, end, reqs.drop_last()) {
            None => None,
            Some((c, addrs)) => match arena_alloc(c, end, reqs.last()) {
                None => None,
                Some((a, next)) => Some((next, addrs.push(a))),
            },
        }
    }
}

/// Any sequence of arena allocations that all fit: every block is aligned
/// as requested and lies in the window between the starting cursor and the
/// final cursor, which never passes the window's end; blocks come in
/// increasing address order and no two overlap; the cursor never goes back.
pub proof fn lemma_arena_run(cursor: nat, end: nat, reqs: Seq<ArenaRequest>)
    requires
        arena_run(cursor, end, reqs) is Some,
    ensures
        ({
            let (c, addrs) = arena_run(cursor, end, reqs)->Some_0;
            &&& addrs.len() == reqs.len()
            &&& cursor <= c
            &&& reqs.len() > 0 ==> c <= end
            &&& forall|i: int| 0 <= i < addrs.len() ==> {
                &&& cursor <= #[trigger] addrs[i]
                &&& addrs[i] % reqs[i].align() == 0
                &&& addrs[i] + reqs[i].size() <= c
            }
            &&& forall|i: int, j: int| 0 <= i < j < addrs.len() ==> #[trigger] addrs[i] + reqs[i].size() <= #[trigger] addrs[j]
        }),
    decreases reqs.len(),
{
    if reqs.len() > 0 {
        let pre = reqs.drop_last();
        lemma_arena_run(cursor, end, pre);
        let (c, addrs) = arena_run(cursor, end, pre)->Some_0;
        let q = reqs.last();
        let (a, next) = arena_alloc(c, end, q)->Some_0;
        lemma_power_of_two_positive(q.align());
        crate::arith::lemma_round_up(c as int, q.align() as int);
        let addrs2 = addrs.push(a);
        assert forall|i: int| 0 <= i < addrs2.len() implies {
            &&& cursor <= #[trigger] addrs2[i]
            &&& addrs2[i] % reqs[i].align() == 0
            &&& addrs2[i] + reqs[i].size() <= next
        } by {
            if i < addrs.len() {
                assert(addrs2[i] == addrs[i]);
                assert(reqs[i] == pre[i]);
            }
        }
        assert forall|i: int, j: int| 0 <= i < j < addrs2.len() implies #[trigger] addrs2[i] + reqs[i].size() <= #[trigger] addrs2[j] by {
            assert(addrs2[i] == addrs[i]);
            assert(reqs[i] == pre[i]);
            if j < addrs.len() {
                assert(addrs2[j] == addrs[j]);
            }
        }
    }
}

impl BootArena {
    /// The next free address.
    pub closed spec fn spec_cursor(&self) -> usize {
        self.current
    }

    /// The end of the window.
    pub closed spec fn spec_end(&self) -> usize {
        self.end
    }

    /// The blocks handed out so far, each a range to zero-fill, in order.
    pub closed spec fn spec_zero_fill(&self) -> Seq<ZeroRange> {
        self.zero_fill@
    }

    /// An arena over `[start, end)`, starting at the first page boundary.
    pub fn new(start: usize, end: usize) -> (a: BootArena)
        requires
            start + PAGE_SIZE - 1 <= usize::MAX,
        ensures
            a.spec_cursor() == round_up(start as nat, PAGE_SIZE as nat),
            a.spec_end() == end,
            a.spec_zero_fill() == Seq::<ZeroRange>::empty(),
    {
        proof {
            lemma_page_is_power_of_two();
        }
        BootArena { current: Self::align_up(start, PAGE_SIZE), end, zero_fill: Vec::new() }
    }

    /// `x` rounded up to the power of two `align`.
    pub fn align_up(x: usize, align: usize) -> (r: usize)
        requires
            is_power_of_two(align as nat),
            x + align - 1 <= usize::MAX,
        ensures
            r == round_up(x as nat, align as nat),
    {
        align_up(x, align)
    }

    /// Places an object of `size` bytes aligned to `align`; returns its address.
    pub fn alloc_typed(&mut self, size: usize, align: usize) -> (addr: usize)
        requires
            arena_step(old(self).spec_cursor() as nat, old(self).spec_end() as nat, size as nat, align as nat) is Some,
        ensures
            arena_alloc(old(self).spec_cursor() as nat, old(self).spec_end() as nat, ArenaRequest::Typed { size, align })
                == Some((addr as nat, final(self).spec_cursor() as nat)),
            addr == round_up(old(self).spec_cursor() as nat, align as nat),
            final(self).spec_cursor() == addr + size,
            final(self).spec_end() == old(self).spec_end(),
            final(self).spec_zero_fill() == old(self).spec_zero_fill().push(ZeroRange { start: addr, len: size }),
    {
        self.current = Self::align_up(self.current, align);
        let ptr = self.current;
        self.current = self.current + size;
        self.zero_fill.push(ZeroRange { start: ptr, len: size });
        ptr
    }

    /// Places an array of `count` slots of `slot_size` bytes aligned to
    /// `slot_align`; returns its address.
    pub fn alloc_slots(&mut self, count: usize, slot_size: usize, slot_align: usize) -> (addr: usize)
        requires
            arena_step(
                old(self).spec_cursor() as nat,
                old(self).spec_end() as nat,
                slot_size as nat * count as nat,
                slot_align as nat,
            ) is Some,
        ensures
            arena_alloc(
                old(self).spec_cursor() as nat,
                old(self).spec_end() as nat,
                ArenaRequest::Slots { count, slot_size, slot_align },
            ) == Some((addr as nat, final(self).spec_cursor() as nat)),
            addr == round_up(old(self).spec_cursor() as nat, slot_align as nat),
            final(self).spec_cursor() == addr + slot_size * count,
            final(self).spec_end() == old(self).spec_end(),
            final(self).spec_zero_fill() == old(self).spec_zero_fill().push(
                ZeroRange { start: addr, len: (slot_size * count) as usize },
            ),
    {
        self.current = Self::align_up(self.current, slot_align);
        let ptr = self.current;
        assert(slot_size * count <= usize::MAX) by (nonlinear_arith)
            requires
                ptr + slot_size as nat * count as nat <= self.end,
        ;
        let len = slot_size * count;
        self.current = self.current + len;
        self.zero_fill.push(ZeroRange { start: ptr, len });
        ptr
    }

    /// Places one page; returns its address.
    pub fn alloc_page_paddr(&mut self) -> (paddr: usize)
        requires
            arena_step(old(self).spec_cursor() as nat, old(self).spec_end() as nat, PAGE_SIZE as nat, PAGE_SIZE as nat) is Some,
        ensures
            arena_alloc(old(self).spec_cursor() as nat, old(self).spec_end() as nat, ArenaRequest::Page)
                == Some((paddr as nat, final(self).spec_cursor() as nat)),
            paddr == round_up(old(self).spec_cursor() as nat, PAGE_SIZE as nat),
            final(self).spec_cursor() == paddr + PAGE_SIZE,
            final(self).spec_end() == old(self).spec_end(),
            final(self).spec_zero_fill() == old(self).spec_zero_fill().push(ZeroRange { start: paddr, len: PAGE_SIZE }),
    {
        self.current = Self::align_up(self.current, PAGE_SIZE);
        let paddr = self.current;
        self.current = self.current + PAGE_SIZE;
        self.zero_fill.push(ZeroRange { start: paddr, len: PAGE_SIZE });
        paddr
    }

    /// The next free address.
    pub fn cursor(&self) -> (c: usize)
        ensures
            c == self.spec_cursor(),
    {
        self.current
    }

    /// Ends the arena, handing over the ranges that must be zero-filled:
    /// every block it handed out, in order.
    pub fn into_zero_fill(self) -> (v: Vec<ZeroRange>)
        ensures
            v@ == self.spec_zero_fill(),
    {
        self.zero_fill
    }
}

/// Cuts `[current_paddr, end_paddr)` into untyped regions, lowest first.
pub struct UntypedStream {
    pub current_paddr: usize,
    pub end_paddr: usize,
}

/// Bytes left in the window `[cur, end)` (zero when `cur` is past `end`).
pub open spec fn remaining(cur: nat, end: nat) -> nat {
    if end >= cur {
        (end - cur) as nat
    } else {
        0
    }
}

/// Size bits of the next untyped region at `cur`: the largest power of two
/// that `cur` is aligned to and that still fits in the window.
pub open spec fn block_bits(cur: nat, end: nat) -> nat {
    let tz = trailing_zeros(cur);
    let lg = ilog2(remaining(cur, end));
    if tz < lg {
        tz
    } else {
        lg
    }
}

/// The untyped region cut at `cur` is the largest one possible: `2^b` bytes
/// with `b = block_bits(cur, end)`, aligned to its size and inside
/// `[cur, end)`, while the next larger power of two either is not an
/// alignment of `cur` or would pass `end`.
pub proof fn lemma_block_maximal(cur: nat, end: nat)
    requires
        cur < end,
        end <= usize::MAX,
    ensures
        ({
            let b = block_bits(cur, end);
            &&& cur % pow2(b) == 0
            &&& cur + pow2(b) <= end
            &&& cur % pow2(b + 1) != 0 || cur + pow2(b + 1) > end
        }),
{
    let rem = remaining(cur, end);
    let lg = ilog2(rem);
    let tz = trailing_zeros(cur);
    let b = block_bits(cur, end);
    lemma_ilog2_bounds(rem);
    lemma_pow2_word();
    if lg >= usize::BITS {
        lemma_pow2_mono(usize::BITS as nat, lg);
    }
    assert(lg < usize::BITS);
    if cur == 0 {
        assert(b == lg);
        lemma_pow2_pos(b);
        vstd::arithmetic::div_mod::lemma_small_mod(0, pow2(b));
    } else {
        lemma_trailing_zeros_divides(cur);
        if tz < lg {
            assert(b == tz);
            lemma_pow2_mono(tz, lg);
            if cur % pow2(tz + 1) == 0 {
                lemma_trailing_zeros_at_least(cur, tz + 1);
            }
        } else {
            assert(b == lg);
            lemma_pow2_divides_smaller(cur, lg, tz);
        }
    }
}

/// The regions `(paddr, size_bits)` that the stream yields from `cur`,
/// at most `limit` of them; it stops once less than a page is left.
pub open spec fn stream_blocks(cur: nat, end: nat, limit: nat) -> Seq<(usize, u8)>
    decreases limit,
{
    if limit == 0 || remaining(cur, end) < PAGE_SIZE {
        Seq::empty()
    } else {
        let bits = block_bits(cur, end);
        seq![(cur as usize, bits as u8)] + stream_blocks(cur + pow2(bits), end, (limit - 1) as nat)
    }
}

impl UntypedStream {
    /// The next untyped region, or `None` once less than a page is left.
    pub fn next(&mut self) -> (r: Option<(usize, u8)>)
        ensures
            remaining(old(self).current_paddr as nat, old(self).end_paddr as nat) < PAGE_SIZE ==> r is None
                && *final(self) == *old(self),
            remaining(old(self).current_paddr as nat, old(self).end_paddr as nat) >= PAGE_SIZE ==> {
                let bits = block_bits(old(self).current_paddr as nat, old(self).end_paddr as nat);
                &&& r == Some((old(self).current_paddr, bits as u8))
                &&& final(self).current_paddr == old(self).current_paddr + pow2(bits)
                &&& final(self).end_paddr == old(self).end_paddr
                &&& old(self).current_paddr as nat % pow2(bits) == 0
                &&& old(self).current_paddr + pow2(bits) <= old(self).end_paddr
                &&& old(self).current_paddr as nat % pow2(bits + 1) != 0
                    || old(self).current_paddr + pow2(bits + 1) > old(self).end_paddr
            },
    {
        let remain = self.end_paddr.saturating_sub(self.current_paddr);
        if remain < PAGE_SIZE {
            return None;
        }
        proof {
            lemma_block_maximal(self.current_paddr as nat, self.end_paddr as nat);
        }
        let s_paddr_bits = trailing_zeros_of(self.current_paddr);
        let remain_bits = ilog2_of(remain);
        let size_bits = if s_paddr_bits < remain_bits { s_paddr_bits } else { remain_bits };
        proof {
            lemma_ilog2_bounds(remain as nat);
            lemma_pow2_fits(ilog2(remain as nat));
            lemma_pow2_mono(size_bits as nat, ilog2(remain as nat));
            lemma_usize_pow2_no_overflow(size_bits as nat);
            lemma_usize_shl_is_mul(1, size_bits as usize);
        }
        let paddr = self.current_paddr;
        self.current_paddr = self.current_paddr + (1usize << size_bits);
        Some((paddr, size_bits as u8))
    }
}

/// An untyped region `(paddr, size_bits)` is a naturally aligned power of
/// two, at least a page large, lying inside `[lo, hi)`.
pub open spec fn block_ok(b: (usize, u8), lo: nat, hi: nat) -> bool {
    &&& MIN_UNTYPED_SIZE_BITS <= b.1 < usize::BITS
    &&& (b.0 as nat) % pow2(b.1 as nat) == 0
    &&& b.0 % PAGE_SIZE == 0
    &&& lo <= b.0
    &&& b.0 + pow2(b.1 as nat) <= hi
    &&& (b.0 as nat + pow2(b.1 as nat)) % PAGE_SIZE as nat == 0
}

/// One step of the stream from a page-aligned address: the region is
/// aligned to its own size, at least a page, and fits in the window.
#[verifier::spinoff_prover]
pub proof fn lemma_block_step(cur: nat, end: nat)
    requires
        cur % PAGE_SIZE as nat == 0,
        end <= usize::MAX,
        remaining(cur, end) >= PAGE_SIZE,
    ensures
        block_ok((cur as usize, block_bits(cur, end) as u8), cur, end),
        (cur + pow2(block_bits(cur, end))) % PAGE_SIZE as nat == 0,
        block_bits(cur, end) < usize::BITS,
        cur < end,
{
    lemma_pow2_word();
    let rem = remaining(cur, end);
    let bits = block_bits(cur, end);
    let tz = trailing_zeros(cur);
    lemma_ilog2_bounds(rem);
    lemma_ilog2_at_least(rem, 12);
    lemma_pow2_fits(ilog2(rem));
    lemma_pow2_mono(bits, ilog2(rem));
    if cur > 0 {
        lemma_trailing_zeros_at_least(cur, 12);
        lemma_trailing_zeros_divides(cur);
        lemma_pow2_divides_smaller(cur, bits, tz);
    } else {
        lemma_pow2_pos(bits);
        vstd::arithmetic::div_mod::lemma_small_mod(0, pow2(bits));
    }
    assert(cur % pow2(bits) == 0);
    assert((bits as u8) as nat == bits);
    lemma_pow2_divides_smaller(cur, 12, bits);
    lemma_pow2_adds(12, (bits - 12) as nat);
    lemma_pow2_pos((bits - 12) as nat);
    let q = cur as int / 4096;
    assert(cur as int == 4096 * q);
    let k = pow2((bits - 12) as nat) as int;
    assert(cur + pow2(bits) == 4096 * (q + k));
    assert((cur + pow2(bits)) % 4096 == 0) by (nonlinear_arith)
        requires
            cur + pow2(bits) == 4096 * (q + k),
    ;
}

/// The regions that the stream yields from a page-aligned address are
/// naturally aligned powers of two, at least a page large, inside the
/// window, and each starts where the previous one ends (the first at `cur`).
pub proof fn lemma_stream_blocks(cur: nat, end: nat, limit: nat)
    requires
        cur % PAGE_SIZE as nat == 0,
        end <= usize::MAX,
    ensures
        stream_blocks(cur, end, limit).len() <= limit,
        forall|i: int| 0 <= i < stream_blocks(cur, end, limit).len() ==> block_ok(
            #[trigger] stream_blocks(cur, end, limit)[i],
            cur,
            end,
        ),
        stream_blocks(cur, end, limit).len() > 0 ==> stream_blocks(cur, end, limit)[0].0 == cur,
        forall|i: int| 0 <= i < stream_blocks(cur, end, limit).len() - 1 ==>
            (#[trigger] stream_blocks(cur, end, limit)[i + 1]).0 == stream_blocks(cur, end, limit)[i].0
                + pow2(stream_blocks(cur, end, limit)[i].1 as nat),
    decreases limit,
{
    if limit > 0 && remaining(cur, end) >= PAGE_SIZE {
        let bits = block_bits(cur, end);
        let next = cur + pow2(bits);
        lemma_block_step(cur, end);
        lemma_stream_blocks(next, end, (limit - 1) as nat);
        let rest = stream_blocks(next, end, (limit - 1) as nat);
        let all = stream_blocks(cur, end, limit);
        assert(all == seq![(cur as usize, bits as u8)] + rest);
        assert forall|i: int| 0 <= i < all.len() implies block_ok(#[trigger] all[i], cur, end) by {
            if i > 0 {
                assert(all[i] == rest[i - 1]);
                assert(block_ok(rest[i - 1], next, end));
            }
        }
        assert forall|i: int| 0 <= i < all.len() - 1 implies (#[trigger] all[i + 1]).0 == all[i].0 + pow2(all[i].1 as nat) by {
            if i > 0 {
                let j = i - 1;
                assert(all[i + 1] == rest[j + 1]);
                assert(all[i] == rest[j]);
                assert(rest[j + 1].0 == rest[j].0 + pow2(rest[j].1 as nat));
            } else {
                assert(all[1] == rest[0]);
                assert(all[0] == (cur as usize, bits as u8));
                assert(rest[0].0 == next);
            }
        }
    }
}

/// The regions that the stream yields do not overlap: each one ends at or
/// before the start of every later one.
pub proof fn lemma_stream_blocks_disjoint(cur: nat, end: nat, limit: nat, i: int, j: int)
    requires
        cur % PAGE_SIZE as nat == 0,
        end <= usize::MAX,
        0 <= i < j < stream_blocks(cur, end, limit).len(),
    ensures
        stream_blocks(cur, end, limit)[i].0 + pow2(stream_blocks(cur, end, limit)[i].1 as nat)
            <= stream_blocks(cur, end, limit)[j].0,
    decreases j - i,
{
    let b = stream_blocks(cur, end, limit);
    lemma_stream_blocks(cur, end, limit);
    assert(b[(j - 1) + 1].0 == b[j - 1].0 + pow2(b[j - 1].1 as nat));
    if i < j - 1 {
        lemma_stream_blocks_disjoint(cur, end, limit, i, j - 1);
        lemma_pow2_pos(b[j - 1].1 as nat);
    }
}

/// The boot-time free memory window `[start, end)`: it starts at the first
/// page boundary past both the kernel image and the rootserver image, and
/// ends `EARLY_BOOT_MEMORY_SIZE` bytes past the kernel image.
pub open spec fn free_memory_window(kernel_end: nat, rootserver_end: nat) -> (nat, nat) {
    let top = if kernel_end < rootserver_end { rootserver_end } else { kernel_end };
    (round_up(top, PAGE_SIZE as nat), kernel_end + EARLY_BOOT_MEMORY_SIZE as nat)
}

/// The rootserver image and the kernel image both end inside the early-boot
/// memory window, with no address overflow.
pub open spec fn free_memory_fits(kernel_end: nat, rootserver_end: nat) -> bool {
    let top = if kernel_end < rootserver_end { rootserver_end } else { kernel_end };
    &&& top + PAGE_SIZE - 1 <= usize::MAX
    &&& kernel_end + EARLY_BOOT_MEMORY_SIZE <= usize::MAX
    &&& free_memory_window(kernel_end, rootserver_end).0 <= free_memory_window(kernel_end, rootserver_end).1
}

/// The free memory window for a kernel image ending at `kernel_end`.
pub fn probe_free_memory(kernel_end: usize, rootserver: RootserverImage) -> (r: (usize, usize))
    requires
        free_memory_fits(kernel_end as nat, rootserver.end as nat),
    ensures
        r.0 == free_memory_window(kernel_end as nat, rootserver.end as nat).0,
        r.1 == free_memory_window(kernel_end as nat, rootserver.end as nat).1,
{
    let top = if kernel_end < rootserver.end { rootserver.end } else { kernel_end };
    proof {
        lemma_page_is_power_of_two();
    }
    let free_memory_start = BootArena::align_up(top, PAGE_SIZE);
    let free_memory_end = kernel_end + EARLY_BOOT_MEMORY_SIZE;
    (free_memory_start, free_memory_end)
}

} // verus!
