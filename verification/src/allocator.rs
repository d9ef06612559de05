//! Heap allocation: the `align_up` helper and a bump allocator.
use vstd::prelude::*;

verus! {

/// `align` is a power of two (what `core::alloc::Layout` guarantees).
pub open spec fn is_power_of_two(align: usize) -> bool {
    align != 0 && align & ((align - 1) as usize) == 0
}

/// The smallest multiple of `align` that is at least `addr`.
pub open spec fn align_up_spec(addr: int, align: int) -> int {
    ((addr + align - 1) / align) * align
}

/// Rounds `addr` up to the next multiple of `align`.
pub fn align_up(addr: usize, align: usize) -> (res: usize)
    requires
        is_power_of_two(align),
        addr + align - 1 <= usize::MAX,
    ensures
        res == align_up_spec(addr as int, align as int),
        res % align == 0,
        addr <= res < addr + align,
{
    let mask = align - 1;
    let sum = addr + mask;
    let res = sum & !mask;
    assert(res & mask == 0 && res <= sum && sum - res <= mask) by (bit_vector)
        requires
            res == sum & !mask,
    ;
    proof {
        lemma_mask_is_mod(res, align);
        lemma_unique_multiple(addr as int, align as int, res as int);
    }
    res
}

/// For a power of two `y`, masking with `y - 1` keeps exactly the remainder modulo `y`.
pub proof fn lemma_mask_is_mod(x: usize, y: usize)
    requires
        is_power_of_two(y),
    ensures
        x & ((y - 1) as usize) == x % y,
    decreases y,
{
    if y == 1 {
        assert(x & 0usize == 0usize) by (bit_vector);
    } else {
        let y2: usize = y >> 1;
        let x2: usize = x >> 1;
        assert(y2 == y / 2 && x2 == x / 2 && y2 != 0 && y2 & ((y2 - 1) as usize) == 0
            && y == 2 * y2 && y2 < y) by (bit_vector)
            requires
                y != 0,
                y != 1,
                y & ((y - 1) as usize) == 0,
                y2 == y >> 1,
                x2 == x >> 1,
        ;
        lemma_mask_is_mod(x2, y2);
        assert(x & ((y - 1) as usize) == 2 * (x2 & ((y2 - 1) as usize)) + x % 2) by (bit_vector)
            requires
                y != 0,
                y != 1,
                y & ((y - 1) as usize) == 0,
                y2 == y >> 1,
                x2 == x >> 1,
        ;
        let b = x % 2;
        assert(x % y == 2 * (x2 % y2) + b) by (nonlinear_arith)
            requires
                x == 2 * x2 + b,
                0 <= b < 2,
                y == 2 * y2,
                y2 > 0,
                x2 >= 0,
        {
            let q = x2 / y2;
            let r = x2 % y2;
            assert(x2 == q * y2 + r && 0 <= r < y2);
            assert(x == q * y + (2 * r + b));
            assert(0 <= 2 * r + b < y);
        }
    }
}

/// The only multiple of `align` in `[addr, addr + align)` is `align_up_spec(addr, align)`.
proof fn lemma_unique_multiple(addr: int, align: int, res: int)
    requires
        align > 0,
        addr >= 0,
        res % align == 0,
        addr <= res < addr + align,
    ensures
        res == align_up_spec(addr, align),
{
    let q = res / align;
    assert(res == q * align + res % align) by (nonlinear_arith)
        requires align > 0, q == res / align;
    let s = addr + align - 1;
    assert(q * align <= s < (q + 1) * align) by (nonlinear_arith)
        requires res == q * align, addr <= res < addr + align, s == addr + align - 1;
    assert(s / align == q) by (nonlinear_arith)
        requires q * align <= s < (q + 1) * align, align > 0;
}

} // verus!

verus! {

/// The four counters of a bump allocator, as mathematical values.
pub struct BumpView {
    pub heap_start: nat,
    pub heap_end: nat,
    pub next: nat,
    pub allocations: nat,
}

/// Where an allocation of `size` bytes aligned to `align` starts.
pub open spec fn alloc_start(v: BumpView, align: nat) -> int {
    align_up_spec(v.next as int, align as int)
}

/// Whether an allocation request fits below the end of the heap.
pub open spec fn alloc_fits(v: BumpView, size: nat, align: nat) -> bool {
    alloc_start(v, align) + size <= v.heap_end
}

/// The allocator after a request: on success `next` moves past the block and the
/// count of live allocations grows by one; on failure nothing changes.
pub open spec fn alloc_spec(v: BumpView, size: nat, align: nat) -> (BumpView, Option<nat>) {
    if alloc_fits(v, size, align) {
        let start = alloc_start(v, align) as nat;
        (BumpView { next: start + size, allocations: v.allocations + 1, ..v }, Some(start))
    } else {
        (v, None)
    }
}

/// The allocator after a block is released: one live allocation fewer, and once none
/// is left the whole heap is available again.
pub open spec fn dealloc_spec(v: BumpView) -> BumpView {
    let remaining = (v.allocations - 1) as nat;
    if remaining == 0 {
        BumpView { allocations: remaining, next: v.heap_start, ..v }
    } else {
        BumpView { allocations: remaining, ..v }
    }
}

/// An address handed out by the allocator, as a mathematical value.
pub open spec fn address_of(res: Option<usize>) -> Option<nat> {
    match res {
        Some(a) => Some(a as nat),
        None => None,
    }
}

/// `next` lies between the two ends of the heap.
pub open spec fn bump_wf(v: BumpView) -> bool {
    v.heap_start <= v.next <= v.heap_end
}

/// A bump allocator: hands out memory by moving `next` forward and only
/// reclaims the heap once every allocation has been released.
pub struct BumpAllocator {
    heap_start: usize,
    heap_end: usize,
    next: usize,
    allocations: usize,
}

impl View for BumpAllocator {
    type V = BumpView;

    closed spec fn view(&self) -> BumpView {
        BumpView {
            heap_start: self.heap_start as nat,
            heap_end: self.heap_end as nat,
            next: self.next as nat,
            allocations: self.allocations as nat,
        }
    }
}

impl BumpAllocator {
    /// An allocator over an empty heap.
    pub fn new() -> (a: Self)
        ensures
            a@ == (BumpView { heap_start: 0, heap_end: 0, next: 0, allocations: 0 }),
    {
        BumpAllocator { heap_start: 0, heap_end: 0, next: 0, allocations: 0 }
    }

    /// Hands the heap `[heap_start, heap_start + heap_size)` to the allocator.
    /// The count of live allocations is left as it was.
    pub fn init(&mut self, heap_start: usize, heap_size: usize)
        requires
            heap_start + heap_size <= usize::MAX,
        ensures
            final(self)@ == (BumpView {
                heap_start: heap_start as nat,
                heap_end: (heap_start + heap_size) as nat,
                next: heap_start as nat,
                allocations: old(self)@.allocations,
            }),
            bump_wf(final(self)@),
    {
        self.heap_start = heap_start;
        self.heap_end = heap_start + heap_size;
        self.next = heap_start;
    }

    /// Allocates `size` bytes aligned to `align`; the start address, or `None` when the
    /// block does not fit (the end of the block would pass the heap or the address space).
    pub fn allocate(&mut self, size: usize, align: usize) -> (res: Option<usize>)
        requires
            is_power_of_two(align),
            old(self)@.next + align - 1 <= usize::MAX,
            old(self)@.allocations < usize::MAX,
        ensures
            final(self)@ == alloc_spec(old(self)@, size as nat, align as nat).0,
            address_of(res) == alloc_spec(old(self)@, size as nat, align as nat).1,
            res matches Some(start) ==> start % align == 0 && old(self)@.next <= start
                && start + size <= old(self)@.heap_end,
            bump_wf(old(self)@) ==> bump_wf(final(self)@),
    {
        let alloc_start = align_up(self.next, align);
        let alloc_end = match alloc_start.checked_add(size) {
            Some(end) => end,
            None => return None,
        };
        if alloc_end > self.heap_end {
            None
        } else {
            self.next = alloc_end;
            self.allocations = self.allocations + 1;
            Some(alloc_start)
        }
    }

    /// The address the next allocation starts from (before alignment).
    pub fn next_address(&self) -> (n: usize)
        ensures
            n == self@.next,
    {
        self.next
    }

    /// The number of allocations not yet released.
    pub fn allocations(&self) -> (n: usize)
        ensures
            n == self@.allocations,
    {
        self.allocations
    }

    /// Releases one allocation; when it was the last one, the heap is reclaimed.
    pub fn deallocate(&mut self)
        requires
            old(self)@.allocations > 0,
        ensures
            final(self)@ == dealloc_spec(old(self)@),
            bump_wf(old(self)@) ==> bump_wf(final(self)@),
    {
        self.allocations = self.allocations - 1;
        if self.allocations == 0 {
            self.next = self.heap_start;
        }
    }
}

} // verus!

verus! {

/// Two allocations made one after the other never overlap: the second block
/// starts at or after the end of the first.
pub proof fn lemma_consecutive_allocations_disjoint(
    v: BumpView,
    size1: nat,
    align1: nat,
    size2: nat,
    align2: nat,
)
    requires
        align1 > 0,
        align2 > 0,
        alloc_spec(v, size1, align1).1 is Some,
        alloc_spec(alloc_spec(v, size1, align1).0, size2, align2).1 is Some,
    ensures
        ({
            let first = alloc_spec(v, size1, align1).1.unwrap();
            let second = alloc_spec(alloc_spec(v, size1, align1).0, size2, align2).1.unwrap();
            first + size1 <= second
        }),
{
    let v1 = alloc_spec(v, size1, align1).0;
    lemma_align_up_at_least(v1.next as int, align2 as int);
}

/// Rounding up never moves an address backwards.
pub proof fn lemma_align_up_at_least(addr: int, align: int)
    requires
        addr >= 0,
        align > 0,
    ensures
        addr <= align_up_spec(addr, align) < addr + align,
{
    let s = addr + align - 1;
    let q = s / align;
    assert(q * align <= s < q * align + align) by (nonlinear_arith)
        requires align > 0, q == s / align, s >= 0;
}

/// An allocation never runs past the end of the heap, and it starts no lower than
/// the bump pointer, which itself never goes below the heap's start.
pub proof fn lemma_allocation_within_heap(v: BumpView, size: nat, align: nat)
    requires
        bump_wf(v),
        align > 0,
        alloc_spec(v, size, align).1 is Some,
    ensures
        v.heap_start <= alloc_spec(v, size, align).1.unwrap(),
        alloc_spec(v, size, align).1.unwrap() + size <= v.heap_end,
        bump_wf(alloc_spec(v, size, align).0),
{
    lemma_align_up_at_least(v.next as int, align as int);
}

/// Memory is only taken back when no allocation is live any more: releasing a
/// block while others remain leaves the bump pointer where it was.
pub proof fn lemma_reclaim_only_when_all_released(v: BumpView)
    requires
        v.allocations > 0,
    ensures
        dealloc_spec(v).allocations == v.allocations - 1,
        dealloc_spec(v).allocations > 0 ==> dealloc_spec(v).next == v.next,
        dealloc_spec(v).allocations == 0 ==> dealloc_spec(v).next == v.heap_start,
{
}

/// On an allocator with nothing live, allocating a block and releasing it again
/// returns the allocator to where it started.
pub proof fn lemma_alloc_dealloc_round_trip(v: BumpView, size: nat, align: nat)
    requires
        v.allocations == 0,
        v.next == v.heap_start,
        alloc_spec(v, size, align).1 is Some,
    ensures
        dealloc_spec(alloc_spec(v, size, align).0) == v,
{
}

} // verus!

verus! {

/// A request made to the allocator.
pub enum BumpOp {
    Alloc { size: nat, align: nat },
    Dealloc,
}

/// The allocator after one request.
pub open spec fn apply_op(v: BumpView, op: BumpOp) -> BumpView {
    match op {
        BumpOp::Alloc { size, align } => alloc_spec(v, size, align).0,
        BumpOp::Dealloc => dealloc_spec(v),
    }
}

/// The allocator after a series of requests, first to last.
pub open spec fn run_ops(v: BumpView, ops: Seq<BumpOp>) -> BumpView
    decreases ops.len(),
{
    if ops.len() == 0 {
        v
    } else {
        run_ops(apply_op(v, ops[0]), ops.drop_first())
    }
}

/// Throughout the requests some allocation stays live: no release lets go of the
/// last one, and every alignment is positive.
pub open spec fn keeps_some_live(v: BumpView, ops: Seq<BumpOp>) -> bool
    decreases ops.len(),
{
    if ops.len() == 0 {
        true
    } else {
        let ok = match ops[0] {
            BumpOp::Alloc { size, align } => align > 0,
            BumpOp::Dealloc => v.allocations > 1,
        };
        ok && keeps_some_live(apply_op(v, ops[0]), ops.drop_first())
    }
}

/// While some allocation stays live, the bump pointer never moves back.
pub proof fn lemma_bump_pointer_never_retreats_while_live(v: BumpView, ops: Seq<BumpOp>)
    requires
        keeps_some_live(v, ops),
    ensures
        run_ops(v, ops).next >= v.next,
        run_ops(v, ops).heap_start == v.heap_start,
        run_ops(v, ops).heap_end == v.heap_end,
    decreases ops.len(),
{
    if ops.len() > 0 {
        let v1 = apply_op(v, ops[0]);
        match ops[0] {
            BumpOp::Alloc { size, align } => {
                lemma_align_up_at_least(v.next as int, align as int);
            },
            BumpOp::Dealloc => {},
        }
        lemma_bump_pointer_never_retreats_while_live(v1, ops.drop_first());
    }
}

/// A block is never handed out twice while it is live: once a block has been
/// allocated, any block allocated later, with some allocation live all along in
/// between, starts at or after its end.
pub proof fn lemma_live_blocks_never_overlap(
    v: BumpView,
    size1: nat,
    align1: nat,
    between: Seq<BumpOp>,
    size2: nat,
    align2: nat,
)
    requires
        align1 > 0,
        align2 > 0,
        alloc_spec(v, size1, align1).1 is Some,
        keeps_some_live(alloc_spec(v, size1, align1).0, between),
        alloc_spec(run_ops(alloc_spec(v, size1, align1).0, between), size2, align2).1 is Some,
    ensures
        alloc_spec(v, size1, align1).1.unwrap() + size1 <= alloc_spec(
            run_ops(alloc_spec(v, size1, align1).0, between),
            size2,
            align2,
        ).1.unwrap(),
{
    let v1 = alloc_spec(v, size1, align1).0;
    lemma_bump_pointer_never_retreats_while_live(v1, between);
    let v2 = run_ops(v1, between);
    lemma_align_up_at_least(v2.next as int, align2 as int);
}

} // verus!
