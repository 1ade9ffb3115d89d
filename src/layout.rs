//! Planning of the one allocation that holds the control block followed by
//! the slot array.
use vstd::arithmetic::div_mod::{lemma_fundamental_div_mod, lemma_mod_decreases, lemma_mod_multiples_basic};
use vstd::prelude::*;

verus! {

/// Size and alignment of a type, in bytes.
#[derive(Clone, Copy, Debug, PartialEq, Eq, Structural)]
pub struct MemLayout {
    pub size: usize,
    pub align: usize,
}

impl MemLayout {
    /// An alignment is never zero.
    pub open spec fn wf(self) -> bool {
        self.align > 0
    }
}

/// Where the parts of the backing allocation lie.
#[derive(Clone, Copy, Debug, PartialEq, Eq, Structural)]
pub struct BackingPlan {
    /// Offset of the first slot from the allocation origin.
    pub midpoint: usize,
    /// Bytes to allocate.
    pub total_size: usize,
    /// Alignment of the allocation.
    pub align: usize,
}

/// Number of slots reserved for a queue of the given capacity.
pub open spec fn slot_count_of(capacity: int) -> int {
    capacity + 2
}

/// The least multiple of `m` that is not below `x`.
pub open spec fn round_up(x: int, m: int) -> int
    recommends
        m > 0,
{
    if x % m == 0 {
        x
    } else {
        x - x % m + m
    }
}

/// The greatest multiple of `m` that is not above `x`.
pub open spec fn round_down(x: int, m: int) -> int
    recommends
        m > 0,
{
    x - x % m
}

/// The larger of `a` and `b`.
pub open spec fn max_of(a: int, b: int) -> int {
    if a >= b {
        a
    } else {
        b
    }
}

/// Offset of the slot array: the control block's size rounded up to the
/// item's alignment.
pub open spec fn midpoint_of(metadata: MemLayout, item: MemLayout) -> int {
    round_up(metadata.size as int, item.align as int)
}

/// Bytes needed for the control block, its padding and every slot.
pub open spec fn total_size_of(metadata: MemLayout, item: MemLayout, capacity: int) -> int {
    midpoint_of(metadata, item) + item.size * slot_count_of(capacity)
}

/// The plan fits in the address space.
pub open spec fn plan_fits(metadata: MemLayout, item: MemLayout, capacity: int) -> bool {
    total_size_of(metadata, item, capacity) <= usize::MAX
}

pub open spec fn plan_of(metadata: MemLayout, item: MemLayout, capacity: int) -> BackingPlan {
    BackingPlan {
        midpoint: midpoint_of(metadata, item) as usize,
        total_size: total_size_of(metadata, item, capacity) as usize,
        align: max_of(metadata.align as int, item.align as int) as usize,
    }
}

/// The number of slots behind a queue of the given capacity: two more than
/// it can hold, so that equal indices alone tell full from empty.
pub fn indexing_adjusted_capacity(capacity: usize) -> (r: usize)
    requires
        capacity <= usize::MAX - 2,
    ensures
        r == slot_count_of(capacity as int),
{
    capacity + 2
}

/// Rounds `x` up to a multiple of `m`.
pub fn next_multiple_of(x: usize, m: usize) -> (r: usize)
    requires
        m > 0,
        round_up(x as int, m as int) <= usize::MAX,
    ensures
        r == round_up(x as int, m as int),
        r % m == 0,
        x <= r < x + m,
{
    let rem: usize = x % m;
    proof {
        lemma_fundamental_div_mod(x as int, m as int);
        lemma_mod_multiples_basic(x as int / m as int + 1, m as int);
        assert(x - rem + m == (x as int / m as int + 1) * m) by (nonlinear_arith)
            requires
                x == m * (x as int / m as int) + rem,
        ;
    }
    if rem == 0 {
        x
    } else {
        x - rem + m
    }
}

/// Lays out the backing allocation of a queue of `capacity` items.
pub fn plan_backing_store(metadata: MemLayout, item: MemLayout, capacity: usize) -> (r: BackingPlan)
    requires
        metadata.wf(),
        item.wf(),
        capacity <= usize::MAX - 2,
        plan_fits(metadata, item, capacity as int),
    ensures
        r == plan_of(metadata, item, capacity as int),
        r.midpoint % item.align == 0,
        metadata.size <= r.midpoint < metadata.size + item.align,
{
    let midpoint = next_multiple_of(metadata.size, item.align);
    let slots = indexing_adjusted_capacity(capacity);
    assert(item.size * slots <= usize::MAX - midpoint);
    let total_size = midpoint + item.size * slots;
    let align = if metadata.align >= item.align {
        metadata.align
    } else {
        item.align
    };
    BackingPlan { midpoint, total_size, align }
}

/// Recovers the allocation origin from the address of the first slot: back
/// over the control block, then down to the allocation's alignment.
pub fn mid_to_origin_ptr(mid_addr: usize, metadata: MemLayout, item: MemLayout) -> (r: usize)
    requires
        metadata.wf(),
        item.wf(),
        metadata.size <= mid_addr,
    ensures
        r == round_down(
            mid_addr - metadata.size,
            max_of(metadata.align as int, item.align as int),
        ),
{
    let align = if metadata.align >= item.align {
        metadata.align
    } else {
        item.align
    };
    let back: usize = mid_addr - metadata.size;
    let rem: usize = back % align;
    proof {
        lemma_mod_decreases(back as nat, align as nat);
    }
    back - rem
}

} // verus!
